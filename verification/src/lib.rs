//! Session backend for an embedded terminal panel.
//!
//! The core is a session registry: it allocates monotonically increasing
//! session ids, routes write/resize/kill requests to the matching platform
//! session, and drives the decisions of the per-session output streaming
//! loop. All OS work (spawning, reads, writes) is performed by the host
//! around this library; the library states and proves what each decision
//! returns.

use vstd::prelude::*;

pub mod errors;
pub mod registry;
pub mod streamer;
pub mod project;
pub mod tree;
pub mod terminal;

verus! {

} // verus!
