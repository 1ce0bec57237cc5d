//! How incarnations and scopes end, as far as supervision tells it apart.

use vstd::prelude::*;

verus! {

/// The classified end of a child.
#[derive(Clone, Copy, Debug, PartialEq, Eq, Structural, Hash)]
pub struct Exit {
    /// Whether the child ever started.
    pub started: bool,
    /// Whether the end counts as a failure.
    pub failure: bool,
    /// Names the evidence kept of it.
    pub evidence: u64,
}

impl Exit {
    /// The end of a child that never started.
    pub fn never_started() -> (exit: Exit)
        ensures
            exit == (Exit { started: false, failure: false, evidence: 0 }),
    {
        Exit { started: false, failure: false, evidence: 0 }
    }

    /// Whether the end counts as a failure.
    pub fn is_failure(&self) -> (failure: bool)
        ensures
            failure == self.failure,
    {
        self.failure
    }
}

/// Why a scope stopped.
#[derive(Clone, Copy, Debug, PartialEq, Eq, Structural, Hash)]
pub enum StopReason {
    /// It had nothing left to do.
    Finished,
    /// Another reason, by name.
    Other(u64),
}

} // verus!
