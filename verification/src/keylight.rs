//! The device handle: a base URL and the power state read from the device.

use vstd::prelude::*;

verus! {

/// A discovered key light: its base URL and the power state it reported
/// when it was probed.
#[derive(Clone, Debug)]
pub struct Keylight {
    pub url: String,
    pub on: bool,
}

impl Keylight {
    /// Builds a handle from a base URL and a power state.
    pub fn new(url: &str, on: bool) -> (r: Self)
        ensures
            r.url@ == url@,
            r.on == on,
    {
        Self { url: url.to_owned(), on: on }
    }
}

} // verus!
