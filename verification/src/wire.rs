//! The device state payload and its numeric power encoding.
//!
//! A device reports and accepts `{ lights: [ { on: 0|1 }, .. ] }`. Only the
//! first entry is consulted when reading; a single entry is sent when
//! writing. The numeric encoding round-trips exactly with the boolean
//! power state.

use vstd::prelude::*;
use crate::keylight::Keylight;

verus! {

/// One entry of the `lights` sequence: the numeric power state.
#[derive(Clone, Copy, Debug, PartialEq, Eq, Structural)]
pub struct LightState {
    pub on: u8,
}

/// The state payload of a device: zero or more light entries.
#[derive(Clone, Debug)]
pub struct LightsState {
    pub lights: Vec<LightState>,
}

/// The numeric value sent for a target power state: 1 for on, 0 for off.
pub open spec fn encode_on_spec(on: bool) -> u8 {
    if on {
        1
    } else {
        0
    }
}

/// The power state read from a reported numeric value: only 1 means on.
pub open spec fn decode_on_spec(v: u8) -> bool {
    v == 1
}

/// Encodes a target power state as the numeric wire value.
pub fn encode_on(on: bool) -> (r: u8)
    ensures
        r == encode_on_spec(on),
{
    if on {
        1
    } else {
        0
    }
}

/// The device handle a probe response yields: `None` when the probe failed
/// or the payload carries no light entry, otherwise the power state of the
/// first entry.
pub open spec fn probe_spec(state: Option<LightsState>) -> Option<bool> {
    match state {
        Option::None => Option::None,
        Option::Some(s) => if s.lights@.len() == 0 {
            Option::None
        } else {
            Option::Some(decode_on_spec(s.lights@[0].on))
        },
    }
}

/// Maps the outcome of probing one candidate address to a device handle.
/// A failed probe (`None`) and a payload with an empty `lights` sequence
/// both yield no device; otherwise the handle carries the candidate's URL
/// and the first entry's power state.
pub fn probe_result(url: &str, state: &Option<LightsState>) -> (r: Option<Keylight>)
    ensures
        match probe_spec(*state) {
            Option::None => r is None,
            Option::Some(b) => r matches Some(k) && k.url@ == url@ && k.on == b,
        },
        (*state matches Some(s) && s.lights@.len() == 0) ==> r is None,
{
    match state {
        Option::None => Option::None,
        Option::Some(s) => {
            if s.lights.len() == 0 {
                Option::None
            } else {
                let first = s.lights[0];
                Option::Some(Keylight::new(url, first.on == 1))
            }
        },
    }
}

/// The numeric encoding and the boolean power state invert each other:
/// encoding then decoding returns the original state, and decoding then
/// encoding returns the original value whenever it is a valid wire value.
pub proof fn lemma_on_round_trip(on: bool, v: u8)
    ensures
        decode_on_spec(encode_on_spec(on)) == on,
        (v == 0 || v == 1) ==> encode_on_spec(decode_on_spec(v)) == v,
{
}

/// Switching then probing agrees: a payload whose first entry carries the
/// encoding of a target state is read back as exactly that state.
pub proof fn lemma_switch_then_probe(state: LightsState, on: bool)
    requires
        state.lights@.len() > 0,
        state.lights@[0].on == encode_on_spec(on),
    ensures
        probe_spec(Option::Some(state)) == Option::Some(on),
{
}

} // verus!
