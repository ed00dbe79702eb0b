//! The discovery window: draining announcement events and deduplicating
//! the candidate addresses they resolve to.
//!
//! A window is driven by events: an announcement arrived, a malformed
//! packet was seen, the per-read wait timed out, or the stream ended.
//! Malformed packets never abort the window; the timeout and the end of
//! the stream close it. Candidate addresses collapse into a set keyed by
//! the base URL, so an address announced many times is kept once.

use vstd::prelude::*;
use crate::announcement::{Announcement, resolve_spec, to_url};

verus! {

/// The default interval between discovery polls, in milliseconds.
pub const QUERY_INTERVAL_MS: u64 = 200;

/// The default inactivity timeout of a discovery window, measured from
/// the last received item, in milliseconds.
pub const INACTIVITY_TIMEOUT_MS: u64 = 500;

/// One event observed while draining a discovery window.
pub enum DiscoveryEvent {
    /// An announcement arrived and was decoded.
    Announcement(Announcement),
    /// A malformed packet arrived; it is logged and skipped.
    PacketError,
    /// No item arrived within the inactivity timeout.
    TimedOut,
    /// The stream of announcements ended.
    Ended,
}

/// The candidate set after one more announcement: unchanged when the
/// announcement does not resolve or its URL is already known, extended by
/// the new URL otherwise.
pub open spec fn insert_candidate(urls: Seq<Seq<char>>, a: Announcement) -> Seq<Seq<char>> {
    match resolve_spec(a) {
        Option::None => urls,
        Option::Some(u) => if urls.contains(u) {
            urls
        } else {
            urls.push(u)
        },
    }
}

/// The candidate set after one more event: only announcements change it.
pub open spec fn step_spec(urls: Seq<Seq<char>>, e: DiscoveryEvent) -> Seq<Seq<char>> {
    match e {
        DiscoveryEvent::Announcement(a) => insert_candidate(urls, a),
        _ => urls,
    }
}

/// Whether the window keeps draining after this event: announcements and
/// malformed packets do, the timeout and the end of the stream do not.
pub open spec fn continues_spec(e: DiscoveryEvent) -> bool {
    match e {
        DiscoveryEvent::Announcement(_) => true,
        DiscoveryEvent::PacketError => true,
        DiscoveryEvent::TimedOut => false,
        DiscoveryEvent::Ended => false,
    }
}

/// The candidate set a whole sequence of events produces, starting from
/// an empty window.
pub open spec fn candidates_after(events: Seq<DiscoveryEvent>) -> Seq<Seq<char>>
    decreases events.len(),
{
    if events.len() == 0 {
        Seq::empty()
    } else {
        step_spec(candidates_after(events.drop_last()), events.last())
    }
}

/// No URL occurs twice.
pub open spec fn distinct_urls(urls: Seq<Seq<char>>) -> bool {
    forall|i: int, j: int| 0 <= i < j < urls.len() ==> urls[i] != urls[j]
}

/// One discovery window in progress: the deduplicated candidate base
/// URLs gathered so far, in first-seen order.
pub struct DiscoverySession {
    urls: Vec<String>,
}

impl View for DiscoverySession {
    type V = Seq<Seq<char>>;

    closed spec fn view(&self) -> Seq<Seq<char>> {
        self.urls@.map_values(|s: String| s@)
    }
}

impl DiscoverySession {
    /// Whether the gathered candidates are free of duplicates; every
    /// window operation preserves this.
    pub open spec fn wf(&self) -> bool {
        distinct_urls(self@)
    }

    /// Opens a fresh window with no candidates.
    pub fn new() -> (r: Self)
        ensures
            r@ == Seq::<Seq<char>>::empty(),
            r.wf(),
    {
        let r = DiscoverySession { urls: Vec::new() };
        proof {
            assert(r@ =~= Seq::<Seq<char>>::empty());
        }
        r
    }

    /// Whether a URL is already among the gathered candidates.
    fn contains_url(urls: &Vec<String>, url: &String) -> (r: bool)
        ensures
            r == urls@.map_values(|s: String| s@).contains(url@),
    {
        let ghost m = urls@.map_values(|s: String| s@);
        let n = urls.len();
        let mut i: usize = 0;
        while i < n
            invariant
                n == urls@.len(),
                i <= n,
                m == urls@.map_values(|s: String| s@),
                forall|j: int| 0 <= j < i ==> m[j] != url@,
            decreases n - i,
        {
            if urls[i].eq(url) {
                proof {
                    assert(m[i as int] == url@);
                }
                return true;
            }
            i = i + 1;
        }
        proof {
            assert(forall|j: int| 0 <= j < m.len() ==> m[j] != url@);
        }
        false
    }

    /// Feeds one event into the window. An announcement that resolves to
    /// a new URL adds one candidate; everything else leaves the gathered
    /// set unchanged. Returns whether the window keeps draining.
    pub fn on_event(&mut self, e: DiscoveryEvent) -> (cont: bool)
        requires
            old(self).wf(),
        ensures
            final(self)@ == step_spec(old(self)@, e),
            final(self).wf(),
            cont == continues_spec(e),
    {
        let ghost pre = *self;
        match e {
            DiscoveryEvent::Announcement(a) => {
                match to_url(&a) {
                    Option::Some(url) => {
                        let ghost u = url@;
                        if !Self::contains_url(&self.urls, &url) {
                            self.urls.push(url);
                            proof {
                                assert(self@ =~= pre@.push(u));
                                assert forall|i: int, j: int|
                                    0 <= i < j < self@.len() implies self@[i] != self@[j] by {
                                    if j < pre@.len() {
                                        assert(self@[i] == pre@[i] && self@[j] == pre@[j]);
                                    } else {
                                        assert(self@[j] == u);
                                        assert(self@[i] == pre@[i]);
                                        assert(!pre@.contains(u));
                                    }
                                }
                            }
                        } else {
                            proof {
                                assert(self@ =~= pre@);
                            }
                        }
                    },
                    Option::None => {
                    },
                }
                true
            },
            DiscoveryEvent::PacketError => true,
            DiscoveryEvent::TimedOut => false,
            DiscoveryEvent::Ended => false,
        }
    }

    /// Closes the window and hands out the gathered candidate URLs, in
    /// first-seen order and free of duplicates.
    pub fn candidates(self) -> (r: Vec<String>)
        ensures
            r@.map_values(|s: String| s@) == self@,
    {
        self.urls
    }
}

/// Deduplication law: whatever events a discovery window sees, the
/// candidate set it produces holds each base URL at most once, so each
/// unique address is probed at most once.
pub proof fn lemma_unique_candidates(events: Seq<DiscoveryEvent>)
    ensures
        distinct_urls(candidates_after(events)),
    decreases events.len(),
{
    if events.len() > 0 {
        lemma_unique_candidates(events.drop_last());
        let prev = candidates_after(events.drop_last());
        let cur = candidates_after(events);
        if let DiscoveryEvent::Announcement(a) = events.last() {
            if let Option::Some(u) = resolve_spec(a) {
                if !prev.contains(u) {
                    assert forall|i: int, j: int| 0 <= i < j < cur.len() implies cur[i]
                        != cur[j] by {
                        if j < prev.len() {
                            assert(cur[i] == prev[i] && cur[j] == prev[j]);
                        } else {
                            assert(cur[j] == u);
                            assert(cur[i] == prev[i]);
                        }
                    }
                }
            }
        }
    }
}

/// One event never removes a candidate that is already gathered.
proof fn lemma_step_keeps_candidate(urls: Seq<Seq<char>>, e: DiscoveryEvent, u: Seq<char>)
    requires
        urls.contains(u),
    ensures
        step_spec(urls, e).contains(u),
{
    let cur = step_spec(urls, e);
    let k = choose|k: int| 0 <= k < urls.len() && urls[k] == u;
    assert(cur[k] == u);
}

/// Collection law: every announcement that resolves to a base URL leaves
/// that URL among the window's candidates, however often it is repeated
/// and whatever else the window sees.
pub proof fn lemma_announced_url_collected(events: Seq<DiscoveryEvent>, i: int, u: Seq<char>)
    requires
        0 <= i < events.len(),
        match events[i] {
            DiscoveryEvent::Announcement(a) => resolve_spec(a) == Option::Some(u),
            _ => false,
        },
    ensures
        candidates_after(events).contains(u),
    decreases events.len(),
{
    let prev = candidates_after(events.drop_last());
    let cur = candidates_after(events);
    if i == events.len() - 1 {
        if let DiscoveryEvent::Announcement(a) = events.last() {
            if prev.contains(u) {
                lemma_step_keeps_candidate(prev, events.last(), u);
            } else {
                assert(cur == prev.push(u));
                assert(cur[prev.len() as int] == u);
            }
        }
    } else {
        assert(events.drop_last()[i] == events[i]);
        lemma_announced_url_collected(events.drop_last(), i, u);
        lemma_step_keeps_candidate(prev, events.last(), u);
    }
}

/// Quiet-window law: a window in which no announcement ever arrives
/// (only packet errors, a timeout, or the end of the stream) produces no
/// candidates at all.
pub proof fn lemma_quiet_window(events: Seq<DiscoveryEvent>)
    requires
        forall|i: int| 0 <= i < events.len() ==> !(events[i] is Announcement),
    ensures
        candidates_after(events).len() == 0,
    decreases events.len(),
{
    if events.len() > 0 {
        assert(forall|i: int|
            0 <= i < events.drop_last().len() ==> !(events.drop_last()[i] is Announcement));
        lemma_quiet_window(events.drop_last());
        assert(!(events.last() is Announcement));
    }
}

} // verus!
