//! Discovery, probing and switching of Elgato-style key lights.
//!
//! The library holds the decision logic of the pipeline: resolving service
//! announcements to candidate addresses, deduplicating them over a discovery
//! window, mapping probe responses to device handles, and building the
//! switch commands. All network I/O is performed by the surrounding
//! application, which feeds plain values in and carries plain values out.

pub mod announcement;
pub mod discovery;
pub mod keylight;
pub mod keylight_repository;
pub mod mdns_discovery;
pub mod wire;

pub use keylight::Keylight;
pub use mdns_discovery::MdnsDiscovery;
