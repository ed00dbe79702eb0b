//! The two operations of the core: listing devices and switching them.
//!
//! `list` opens a discovery window, drains it into a deduplicated set of
//! candidate base URLs, probes each candidate once, and keeps the
//! successes; opening the window is the only step whose failure reaches
//! the caller. `switch` builds one state-change command per device; the
//! dispatch is fire-and-collect, so individual device failures are
//! swallowed by the surrounding application.

use vstd::prelude::*;
use vstd::string::*;
use crate::discovery::{DiscoverySession, distinct_urls};
use crate::keylight::Keylight;
use crate::wire::{LightsState, probe_spec, encode_on_spec, encode_on, probe_result};

verus! {

/// The service type queried for during discovery.
pub fn service_type_name() -> (r: &'static str)
    ensures
        r@ == "_elg._tcp.local"@,
{
    "_elg._tcp.local"
}

/// The one error `list` surfaces: discovery could not be started.
/// Malformed packets, unreachable devices and malformed payloads are all
/// absorbed before a result is returned.
#[derive(Clone, Copy, Debug, PartialEq, Eq, Structural)]
pub enum ListError {
    DiscoveryStart,
}

/// Turns the outcome of starting discovery into the outcome of `list`:
/// a fresh, empty window when discovery started, and the fatal error
/// when it did not. No candidate exists — and so nothing is probed —
/// unless discovery started.
pub fn open_outcome(started: bool) -> (r: Result<DiscoverySession, ListError>)
    ensures
        started <==> r is Ok,
        r matches Ok(s) ==> s@ == Seq::<Seq<char>>::empty() && s.wf(),
        r matches Err(e) ==> e == ListError::DiscoveryStart,
{
    if started {
        Result::Ok(DiscoverySession::new())
    } else {
        Result::Err(ListError::DiscoveryStart)
    }
}

/// The state endpoint of a device: `{base}/elgato/lights`.
pub open spec fn endpoint_of(base: Seq<char>) -> Seq<char> {
    base + "/elgato/lights"@
}

/// Builds the state endpoint URL of a device from its base URL.
pub fn lights_endpoint(base: &str) -> (r: String)
    ensures
        r@ == endpoint_of(base@),
{
    let mut s = base.to_owned();
    s.append("/elgato/lights");
    s
}

/// The devices assembled from candidate URLs and their probe outcomes,
/// paired positionally: each candidate whose probe succeeded with a
/// non-empty payload contributes one device, in candidate order.
pub open spec fn devices_spec(urls: Seq<Seq<char>>, states: Seq<Option<LightsState>>) -> Seq<
    (Seq<char>, bool),
>
    decreases urls.len(),
{
    if urls.len() == 0 || states.len() == 0 {
        Seq::empty()
    } else {
        let rest = devices_spec(urls.drop_last(), states.drop_last());
        match probe_spec(states.last()) {
            Option::None => rest,
            Option::Some(b) => rest.push((urls.last(), b)),
        }
    }
}

/// The URL and power state of each device handle.
pub open spec fn device_views(ks: Seq<Keylight>) -> Seq<(Seq<char>, bool)> {
    ks.map_values(|k: Keylight| (k.url@, k.on))
}

/// Collects the probed devices: candidate `urls[i]` was probed with
/// outcome `states[i]` (`None` for an unreachable device or a malformed
/// payload), and exactly the successful probes with at least one light
/// entry become devices. An empty candidate set yields an empty result.
pub fn finish_list(urls: &Vec<String>, states: &Vec<Option<LightsState>>) -> (r: Vec<Keylight>)
    requires
        urls@.len() == states@.len(),
    ensures
        device_views(r@) == devices_spec(urls@.map_values(|s: String| s@), states@),
{
    let ghost mu = urls@.map_values(|s: String| s@);
    let mut out: Vec<Keylight> = Vec::new();
    let n = urls.len();
    let mut i: usize = 0;
    proof {
        assert(device_views(out@) =~= devices_spec(mu.take(0), states@.take(0)));
    }
    while i < n
        invariant
            n == urls@.len(),
            n == states@.len(),
            i <= n,
            mu == urls@.map_values(|s: String| s@),
            device_views(out@) == devices_spec(mu.take(i as int), states@.take(i as int)),
        decreases n - i,
    {
        let ghost pre = out@;
        match probe_result(urls[i].as_str(), &states[i]) {
            Option::Some(k) => {
                out.push(k);
            },
            Option::None => {
            },
        }
        proof {
            let i1 = i as int + 1;
            assert(mu.take(i1).drop_last() =~= mu.take(i as int));
            assert(states@.take(i1).drop_last() =~= states@.take(i as int));
            assert(mu.take(i1).last() == mu[i as int]);
            assert(mu[i as int] == urls@[i as int]@);
            assert(states@.take(i1).last() == states@[i as int]);
            match probe_spec(states@[i as int]) {
                Option::None => {
                    assert(out@ == pre);
                },
                Option::Some(b) => {
                    assert(device_views(out@) =~= device_views(pre).push(
                        (out@.last().url@, out@.last().on),
                    ));
                },
            }
            assert(device_views(out@) =~= devices_spec(mu.take(i1), states@.take(i1)));
        }
        i = i + 1;
    }
    proof {
        assert(mu.take(n as int) =~= mu);
        assert(states@.take(n as int) =~= states@);
    }
    out
}

/// Provenance law: every device of a list result stems from one of the
/// probed candidates, carries that candidate's URL, and reports the
/// power state its successful probe decoded.
pub proof fn lemma_devices_from_candidates(
    urls: Seq<Seq<char>>,
    states: Seq<Option<LightsState>>,
    j: int,
)
    requires
        urls.len() == states.len(),
        0 <= j < devices_spec(urls, states).len(),
    ensures
        exists|k: int|
            0 <= k < urls.len() && devices_spec(urls, states)[j].0 == urls[k] && probe_spec(
                states[k],
            ) == Option::Some(devices_spec(urls, states)[j].1),
    decreases urls.len(),
{
    let devs = devices_spec(urls, states);
    let rest = devices_spec(urls.drop_last(), states.drop_last());
    match probe_spec(states.last()) {
        Option::None => {
            lemma_devices_from_candidates(urls.drop_last(), states.drop_last(), j);
            let k = choose|k: int|
                0 <= k < urls.drop_last().len() && rest[j].0 == urls.drop_last()[k] && probe_spec(
                    states.drop_last()[k],
                ) == Option::Some(rest[j].1);
            assert(0 <= k < urls.len() && devs[j].0 == urls[k] && probe_spec(states[k])
                == Option::Some(devs[j].1));
        },
        Option::Some(b) => {
            if j < rest.len() {
                lemma_devices_from_candidates(urls.drop_last(), states.drop_last(), j);
                let k = choose|k: int|
                    0 <= k < urls.drop_last().len() && rest[j].0 == urls.drop_last()[k]
                        && probe_spec(states.drop_last()[k]) == Option::Some(rest[j].1);
                assert(devs[j] == rest[j]);
                assert(0 <= k < urls.len() && devs[j].0 == urls[k] && probe_spec(states[k])
                    == Option::Some(devs[j].1));
            } else {
                let k = urls.len() - 1;
                assert(devs[j] == (urls.last(), b));
                assert(0 <= k < urls.len() && devs[j].0 == urls[k] && probe_spec(states[k])
                    == Option::Some(devs[j].1));
            }
        },
    }
}

/// Exclusion law: a candidate whose probe failed — unreachable, a
/// malformed payload, or a payload with no light entry — contributes no
/// device to the list result.
pub proof fn lemma_failed_probe_excluded(
    urls: Seq<Seq<char>>,
    states: Seq<Option<LightsState>>,
    i: int,
)
    requires
        urls.len() == states.len(),
        0 <= i < urls.len(),
        distinct_urls(urls),
        probe_spec(states[i]) is None,
    ensures
        forall|j: int|
            0 <= j < devices_spec(urls, states).len() ==> devices_spec(urls, states)[j].0
                != urls[i],
{
    let devs = devices_spec(urls, states);
    assert forall|j: int| 0 <= j < devs.len() implies devs[j].0 != urls[i] by {
        lemma_devices_from_candidates(urls, states, j);
        let k = choose|k: int|
            0 <= k < urls.len() && devs[j].0 == urls[k] && probe_spec(states[k]) == Option::Some(
                devs[j].1,
            );
        if devs[j].0 == urls[i] {
            if k < i {
                assert(urls[k] != urls[i]);
            } else if i < k {
                assert(urls[i] != urls[k]);
            }
        }
    }
}

/// Builds the switch commands for a batch: one command per device, in
/// order, each addressed to that device's state endpoint and carrying
/// the encoding of the one target state. An empty batch yields no
/// command at all, so switching no devices issues no request.
pub fn switch_commands(keylights: &Vec<Keylight>, on: bool) -> (r: Vec<SwitchCommand>)
    ensures
        r@.len() == keylights@.len(),
        forall|i: int|
            0 <= i < r@.len() ==> r@[i].url@ == endpoint_of(keylights@[i].url@) && r@[i].on
                == encode_on_spec(on),
        keylights@.len() == 0 ==> r@.len() == 0,
{
    let mut out: Vec<SwitchCommand> = Vec::new();
    let n = keylights.len();
    let mut i: usize = 0;
    while i < n
        invariant
            n == keylights@.len(),
            i <= n,
            out@.len() == i,
            forall|j: int|
                0 <= j < i ==> out@[j].url@ == endpoint_of(keylights@[j].url@) && out@[j].on
                    == encode_on_spec(on),
        decreases n - i,
    {
        let url = lights_endpoint(keylights[i].url.as_str());
        let v = encode_on(on);
        out.push(SwitchCommand { url: url, on: v });
        i = i + 1;
    }
    out
}

/// One state-change request of a switch batch: the endpoint to PUT to
/// and the numeric power value of the body `{lights: [{on: v}]}`.
#[derive(Clone, Debug)]
pub struct SwitchCommand {
    pub url: String,
    pub on: u8,
}

} // verus!
