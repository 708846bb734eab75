//! Identity-and-liveness core of an endpoint management agent.
//!
//! The crate establishes a stable device identity from platform-specific
//! probe output, keeps the persisted configuration record (a JSON file)
//! as the single source of truth, drives the one-time registration
//! handshake, schedules recurring liveness and health reports, and owns a
//! size-bounded, rotation-safe log store. All record encoding and
//! decoding, every state transition, and the rotation and scheduling
//! rules are verified; the process edges (file, network, clock, OS
//! queries) stay with the embedding program or behind small trusted
//! wrappers.

pub mod heartbeat;
pub mod identity;
pub mod json;
pub mod logger;
pub mod registration;
pub mod scheduler;
pub mod settings;
pub mod text;

use vstd::prelude::*;

verus! {

/// Platform family the agent runs on; selects configuration paths and
/// the platform identifier reported during registration.
#[derive(Clone, Copy, PartialEq, Eq, Structural, Debug)]
pub enum Platform {
    Windows,
    MacOs,
    Linux,
}

/// Platform identifier string carried in the registration payload.
pub open spec fn spec_platform_str(p: Platform) -> Seq<char> {
    match p {
        Platform::Windows => "windows"@,
        Platform::MacOs => "macos"@,
        Platform::Linux => "linux"@,
    }
}

impl Platform {
    /// Platform identifier string carried in the registration payload.
    pub fn as_str(&self) -> (r: &'static str)
        ensures
            r@ == spec_platform_str(*self),
    {
        match self {
            Platform::Windows => "windows",
            Platform::MacOs => "macos",
            Platform::Linux => "linux",
        }
    }
}

} // verus!
