//! Error taxonomy of the session backend.

use vstd::prelude::*;

verus! {

/// Errors returned by registry-facing operations.
///
/// `NotFound`: the operation referenced an id absent from the registry —
/// an id never issued, an already-killed id, or a race lost against a
/// concurrent kill. `SpawnFailure`: the OS refused to create the
/// pty/process. `IoFailure`: a read or write against a live session failed
/// at the OS level.
#[derive(Clone, Copy, Debug, PartialEq, Eq, Structural)]
pub enum SessionError {
    NotFound,
    SpawnFailure,
    IoFailure,
}

impl SessionError {
    /// Short human-readable message for this error.
    pub fn message(&self) -> (r: &'static str)
        ensures
            *self is NotFound ==> r@ == "session not found"@,
            *self is SpawnFailure ==> r@ == "failed to spawn session"@,
            *self is IoFailure ==> r@ == "session I/O failed"@,
    {
        match self {
            SessionError::NotFound => "session not found",
            SessionError::SpawnFailure => "failed to spawn session",
            SessionError::IoFailure => "session I/O failed",
        }
    }
}

} // verus!
