//! The network-backed discovery source.

use vstd::prelude::*;

verus! {

/// Marker for the discovery source backed by real multicast DNS on the
/// local network. The surrounding application implements its discovery
/// interface for this type; a deterministic fake can stand in its place
/// for tests.
pub struct MdnsDiscovery;

} // verus!
