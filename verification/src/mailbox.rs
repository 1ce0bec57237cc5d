//! Membership-addressed mailboxes, sends and replies.

use crate::identity::{ChildId, Incarnation};
use vstd::prelude::*;

pub mod call;
pub mod cell;
pub mod deadline;
pub mod delivery;
pub mod effects;
pub mod futures;
pub mod handle;
pub mod laws;
pub mod model;
pub mod operation;
pub mod outcomes;
pub mod reply;
pub mod state;

verus! {

/// Why a send failed.
#[derive(Clone, Copy, Debug, PartialEq, Eq, Structural, Hash)]
pub enum SendErrorKind {
    /// No incarnation was accepting.
    NotRunning,
    /// The mailbox had no room.
    Full,
    /// The acceptance budget ran out.
    TimedOut,
    /// The membership had terminated.
    Terminated,
}

/// A failed send, with its message returned.
#[derive(Debug)]
pub struct SendError<M> {
    /// The addressed actor.
    pub actor_id: ChildId,
    /// The newest incarnation seen by the attempt.
    pub incarnation_observed: Option<Incarnation>,
    /// The unaccepted message.
    pub message: M,
    /// Why it failed.
    pub kind: SendErrorKind,
}

/// Why a reply never came.
#[derive(Clone, Copy, Debug, PartialEq, Eq, Structural, Hash)]
pub enum ReplyError {
    /// The reply capability was dropped unanswered.
    Dropped,
    /// The response budget ran out.
    Timeout,
}

/// Why a call failed.
#[derive(Clone, Copy, Debug, PartialEq, Eq, Structural, Hash)]
pub enum CallErrorKind {
    /// The budget ran out before the request was accepted; it never will be.
    AcceptanceTimedOut,
    /// The request was accepted but no response came within the budget.
    ResponseTimedOut,
    /// The request was accepted and its reply capability dropped.
    ReplyDropped,
    /// The membership had terminated.
    Terminated,
}

/// A failed call.
#[derive(Debug)]
pub struct CallError {
    /// The addressed actor.
    pub actor_id: ChildId,
    /// The newest incarnation seen by the attempt.
    pub incarnation_observed: Option<Incarnation>,
    /// Why it failed.
    pub kind: CallErrorKind,
}

/// A response and the incarnation that accepted its request.
#[derive(Debug)]
pub struct Replied<T> {
    /// The response.
    pub value: T,
    /// The accepting incarnation.
    pub incarnation: Incarnation,
}

} // verus!
