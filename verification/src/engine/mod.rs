//! The engine: what happens between a request and its response.
//!
//! Nothing here loads a profile, keeps a session or calls a provider. Each part says which of these
//! is to be done next, and takes in what came of it.

pub mod compaction;
pub mod event;
pub mod laws;
pub mod reply;
pub mod run;

use vstd::prelude::*;

verus! {

/// The version of the protocol that the crate speaks.
pub const SPEC_VERSION: &'static str = "2.8.1";

} // verus!
