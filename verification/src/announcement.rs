//! Service announcements and address resolution.
//!
//! A raw discovery record carries zero or more address records and an
//! optional port. Resolution picks the first IPv4 or IPv6 address record,
//! pairs it with the port, and normalizes the pair into a base URL; an
//! announcement lacking either is dropped.

use vstd::prelude::*;
use vstd::string::*;

verus! {

/// One DNS record of an announcement: an IPv4 address, an IPv6 address
/// (both in textual form), or some other record kind.
#[derive(Clone, Debug)]
pub enum DnsRecord {
    A(String),
    AAAA(String),
    Other,
}

/// A raw service announcement: its DNS records and the announced port.
#[derive(Clone, Debug)]
pub struct Announcement {
    pub records: Vec<DnsRecord>,
    pub port: Option<u16>,
}

/// The textual address a single record contributes, if it is an address
/// record.
pub open spec fn record_host(r: DnsRecord) -> Option<Seq<char>> {
    match r {
        DnsRecord::A(h) => Option::Some(h@),
        DnsRecord::AAAA(h) => Option::Some(h@),
        DnsRecord::Other => Option::None,
    }
}

/// The first address record of the sequence, in announcement order.
pub open spec fn first_host(rs: Seq<DnsRecord>) -> Option<Seq<char>>
    decreases rs.len(),
{
    if rs.len() == 0 {
        Option::None
    } else {
        match record_host(rs[0]) {
            Option::Some(h) => Option::Some(h),
            Option::None => first_host(rs.drop_first()),
        }
    }
}

/// The decimal digit character for a value below ten.
pub open spec fn digit_char(d: nat) -> char {
    if d == 0 {
        '0'
    } else if d == 1 {
        '1'
    } else if d == 2 {
        '2'
    } else if d == 3 {
        '3'
    } else if d == 4 {
        '4'
    } else if d == 5 {
        '5'
    } else if d == 6 {
        '6'
    } else if d == 7 {
        '7'
    } else if d == 8 {
        '8'
    } else {
        '9'
    }
}

/// The decimal rendering of a number, most significant digit first.
pub open spec fn dec_chars(n: nat) -> Seq<char>
    decreases n,
{
    if n < 10 {
        seq![digit_char(n)]
    } else {
        dec_chars(n / 10).push(digit_char(n % 10))
    }
}

/// The base URL formed from a host and a port: `http://{host}:{port}`.
pub open spec fn url_of(host: Seq<char>, port: u16) -> Seq<char> {
    "http://"@ + host + ":"@ + dec_chars(port as nat)
}

/// The base URL an announcement resolves to: present exactly when the
/// announcement has both an address record and a port.
pub open spec fn resolve_spec(a: Announcement) -> Option<Seq<char>> {
    match first_host(a.records@) {
        Option::None => Option::None,
        Option::Some(h) => match a.port {
            Option::None => Option::None,
            Option::Some(p) => Option::Some(url_of(h, p)),
        },
    }
}

/// Appends one decimal digit to a string.
fn push_digit(s: &mut String, d: u16)
    requires
        d < 10,
    ensures
        final(s)@ == old(s)@ + seq![digit_char(d as nat)],
{
    if d == 0 {
        proof {
            reveal_strlit("0");
        }
        s.append("0");
    } else if d == 1 {
        proof {
            reveal_strlit("1");
        }
        s.append("1");
    } else if d == 2 {
        proof {
            reveal_strlit("2");
        }
        s.append("2");
    } else if d == 3 {
        proof {
            reveal_strlit("3");
        }
        s.append("3");
    } else if d == 4 {
        proof {
            reveal_strlit("4");
        }
        s.append("4");
    } else if d == 5 {
        proof {
            reveal_strlit("5");
        }
        s.append("5");
    } else if d == 6 {
        proof {
            reveal_strlit("6");
        }
        s.append("6");
    } else if d == 7 {
        proof {
            reveal_strlit("7");
        }
        s.append("7");
    } else if d == 8 {
        proof {
            reveal_strlit("8");
        }
        s.append("8");
    } else {
        proof {
            reveal_strlit("9");
        }
        s.append("9");
    }
    proof {
        assert(final(s)@ =~= old(s)@ + seq![digit_char(d as nat)]);
    }
}

/// Appends the decimal rendering of a port number to a string.
fn push_dec(s: &mut String, n: u16)
    ensures
        final(s)@ == old(s)@ + dec_chars(n as nat),
    decreases n,
{
    if n >= 10 {
        push_dec(s, n / 10);
        push_digit(s, n % 10);
        proof {
            assert((n as nat) / 10 == (n / 10) as nat);
            assert((n as nat) % 10 == (n % 10) as nat);
            assert(dec_chars(n as nat) =~= dec_chars((n / 10) as nat) + seq![
                digit_char((n % 10) as nat),
            ]);
            assert(final(s)@ =~= old(s)@ + dec_chars(n as nat));
        }
    } else {
        push_digit(s, n);
    }
}

/// Normalizes a host and a port into the base URL `http://{host}:{port}`.
pub fn base_url(host: &str, port: u16) -> (r: String)
    ensures
        r@ == url_of(host@, port),
{
    let mut s = "http://".to_owned();
    s.append(host);
    s.append(":");
    push_dec(&mut s, port);
    s
}

/// Resolves an announcement to its candidate base URL: the first address
/// record paired with the port, or nothing when either is missing.
pub fn to_url(a: &Announcement) -> (r: Option<String>)
    ensures
        match resolve_spec(*a) {
            Option::None => r is None,
            Option::Some(u) => r matches Some(s) && s@ == u,
        },
{
    let n = a.records.len();
    let mut i: usize = 0;
    proof {
        assert(a.records@.skip(0) =~= a.records@);
    }
    while i < n
        invariant
            n == a.records@.len(),
            i <= n,
            first_host(a.records@) == first_host(a.records@.skip(i as int)),
            forall|j: int| 0 <= j < i ==> record_host(a.records@[j]) is None,
        decreases n - i,
    {
        let found: Option<&String> = match &a.records[i] {
            DnsRecord::A(h) => Option::Some(h),
            DnsRecord::AAAA(h) => Option::Some(h),
            DnsRecord::Other => Option::None,
        };
        proof {
            assert(a.records@.skip(i as int).len() > 0);
            assert(a.records@.skip(i as int)[0] == a.records@[i as int]);
            assert(a.records@.skip(i as int).drop_first() =~= a.records@.skip(i as int + 1));
        }
        match found {
            Option::Some(h) => {
                match a.port {
                    Option::Some(p) => {
                        return Option::Some(base_url(h.as_str(), p));
                    },
                    Option::None => {
                        return Option::None;
                    },
                }
            },
            Option::None => {
                i = i + 1;
            },
        }
    }
    proof {
        assert(a.records@.skip(n as int).len() == 0);
    }
    Option::None
}

} // verus!
