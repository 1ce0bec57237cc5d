//! Restart-stable scope snapshots and lifecycle streams.

use crate::exit::{Exit, StopReason};
use crate::identity::{clone_path, ChildId, Incarnation, Membership};
use crate::policy::RestartAttempt;
use crate::time::Duration;
use vstd::prelude::*;

pub mod laws;
pub mod lifecycle;
pub mod snapshot;

verus! {

/// A sequence in one scope membership's lifecycle event domain.
///
/// Values increase and remain continuous across restarts of the same
/// membership. A replacement membership starts a domain of its own.
#[derive(Clone, Copy, Debug, PartialEq, Eq, Structural, Hash, PartialOrd, Ord)]
pub struct LifecycleSeq(pub u64);

impl LifecycleSeq {
    /// The watermark once the sequence space is spent; no event has it.
    pub fn exhausted() -> (seq: LifecycleSeq)
        ensures
            seq.0 == u64::MAX,
    {
        LifecycleSeq(u64::MAX)
    }

    /// The sequence of the given number.
    pub fn new(value: u64) -> (seq: LifecycleSeq)
        ensures
            seq.0 == value,
    {
        LifecycleSeq(value)
    }

    /// The sequence's number.
    #[must_use]
    pub fn get(self) -> (value: u64)
        ensures
            value == self.0,
    {
        self.0
    }
}

/// Whether a child membership is active or undergoing planned removal.
#[derive(Clone, Copy, Debug, PartialEq, Eq, Structural, Hash)]
pub enum MembershipStatus {
    /// The membership remains resident normally.
    Active,
    /// A planned removal has begun.
    Removing,
}

/// Current state of one child membership.
#[derive(Clone, Copy, Debug, PartialEq, Eq, Structural)]
#[non_exhaustive]
pub enum ChildState {
    /// Membership admitted; its first spawn has not begun.
    Admitted,
    /// An incarnation is starting or waiting for readiness.
    Starting,
    /// An incarnation is ready and running.
    Running,
    /// An incarnation is being stopped.
    Stopping,
    /// No incarnation is live while restart backoff runs.
    Restarting,
    /// The membership is terminal after running or being admitted.
    Stopped {
        /// Terminal exit.
        exit: Exit,
    },
    /// The membership failed before its initial readiness edge.
    StartupAborted {
        /// Terminal startup exit.
        exit: Exit,
    },
}

impl ChildState {
    /// Whether this state is terminal.
    #[must_use]
    pub fn is_terminal(&self) -> (terminal: bool)
        ensures
            terminal == (*self is Stopped || *self is StartupAborted),
    {
        match self {
            ChildState::Stopped { .. } => true,
            ChildState::StartupAborted { .. } => true,
            _ => false,
        }
    }
}

/// Current state of a scope membership or incarnation.
#[derive(Clone, Copy, Debug, PartialEq, Eq, Structural)]
#[non_exhaustive]
pub enum ScopeState {
    /// Membership exists but no incarnation has spawned.
    Unstarted,
    /// The current incarnation is starting its initial children.
    Starting,
    /// Aggregate readiness completed.
    Running,
    /// Root startup failed while the started prefix remains supervised.
    StartupFailed,
    /// The current incarnation is tearing down.
    Draining,
    /// One incarnation stopped.
    Stopped {
        /// Structured stop reason.
        reason: StopReason,
    },
}

impl ScopeState {
    /// Whether one incarnation of the scope has stopped.
    ///
    /// A nested scope can stop for a moment before its parent restarts the same
    /// membership.
    #[must_use]
    pub fn is_stopped(&self) -> (stopped: bool)
        ensures
            stopped == (*self is Stopped),
    {
        match self {
            ScopeState::Stopped { .. } => true,
            _ => false,
        }
    }
}

/// Static flavor of a scope snapshot.
#[derive(Clone, Copy, Debug, PartialEq, Eq, Structural, Hash)]
pub enum ScopeKind {
    /// Fixed, readiness-ordered membership.
    Ordered,
    /// Runtime-dynamic membership.
    Dynamic,
}

/// One item read from a lifecycle subscription.
#[derive(Debug, PartialEq, Eq)]
#[non_exhaustive]
pub enum LifecycleItem {
    /// One ordered lifecycle edge.
    Event(LifecycleEvent),
    /// Older events were dropped from this subscriber's private queue.
    Lagged {
        /// Exact number of events dropped in this overflow episode.
        dropped: u64,
    },
}

impl Clone for LifecycleItem {
    fn clone(&self) -> (copy: LifecycleItem)
        ensures
            match *self {
                LifecycleItem::Event(event) => copy matches LifecycleItem::Event(found) && found@
                    == event@,
                LifecycleItem::Lagged { .. } => copy == *self,
            },
    {
        match self {
            LifecycleItem::Event(event) => LifecycleItem::Event(event.clone()),
            LifecycleItem::Lagged { dropped } => LifecycleItem::Lagged { dropped: *dropped },
        }
    }
}

/// One lifecycle edge emitted by a scope membership.
#[derive(Debug, PartialEq, Eq)]
pub struct LifecycleEvent {
    /// Child-id path from the subscribed scope to the emitting scope.
    pub scope_path: Vec<ChildId>,
    /// Membership identity of the emitting scope.
    pub scope: Membership,
    /// Emitting scope's membership-owned sequence number.
    pub seq: LifecycleSeq,
    /// State transition carried by this event.
    pub kind: LifecycleEventKind,
}

/// A lifecycle edge by content.
pub struct EventModel {
    /// Child-id path from the subscribed scope to the emitting scope.
    pub scope_path: Seq<ChildId>,
    /// Membership identity of the emitting scope.
    pub scope: Membership,
    /// Emitting scope's membership-owned sequence number.
    pub seq: LifecycleSeq,
    /// State transition carried by this event.
    pub kind: LifecycleEventKind,
}

impl LifecycleEvent {
    /// The edge by content.
    pub open spec fn view(&self) -> EventModel {
        EventModel {
            scope_path: self.scope_path@,
            scope: self.scope,
            seq: self.seq,
            kind: self.kind,
        }
    }
}

impl Clone for LifecycleEvent {
    fn clone(&self) -> (copy: LifecycleEvent)
        ensures
            copy@ == self@,
    {
        LifecycleEvent {
            scope_path: clone_path(&self.scope_path),
            scope: self.scope,
            seq: self.seq,
            kind: self.kind.clone(),
        }
    }
}

/// Core lifecycle event inventory.
#[derive(Debug, PartialEq, Eq)]
#[non_exhaustive]
pub enum LifecycleEventKind {
    /// A child membership was admitted.
    Added {
        /// Child label in the emitting scope.
        id: ChildId,
        /// New child membership identity.
        membership: Membership,
    },
    /// A child incarnation was spawned.
    Started {
        /// Child label in the emitting scope.
        id: ChildId,
        /// Child membership identity.
        membership: Membership,
        /// Newly running incarnation.
        incarnation: Incarnation,
    },
    /// A child incarnation passed its readiness gate.
    Ready {
        /// Child label in the emitting scope.
        id: ChildId,
        /// Child membership identity.
        membership: Membership,
        /// Ready incarnation.
        incarnation: Incarnation,
    },
    /// A child incarnation exited.
    Exited {
        /// Child label in the emitting scope.
        id: ChildId,
        /// Child membership identity.
        membership: Membership,
        /// Exited incarnation.
        incarnation: Incarnation,
        /// Classified exit.
        exit: Exit,
    },
    /// A restart charge was scheduled.
    RestartScheduled {
        /// Child label in the emitting scope.
        id: ChildId,
        /// Child membership identity.
        membership: Membership,
        /// Resettable backoff attempt number.
        attempt: RestartAttempt,
        /// Sampled restart delay.
        delay: Duration,
    },
    /// A child membership became terminal.
    Removed {
        /// Child label in the emitting scope.
        id: ChildId,
        /// Terminal membership identity.
        membership: Membership,
        /// Last incarnation, or `None` when the membership never ran.
        last_incarnation: Option<Incarnation>,
    },
    /// The emitting scope changed its own incarnation state.
    ScopeState {
        /// New scope state.
        state: ScopeState,
    },
}

impl Clone for LifecycleEventKind {
    fn clone(&self) -> (copy: LifecycleEventKind)
        ensures
            copy == *self,
    {
        match self {
            LifecycleEventKind::Added { id, membership } => LifecycleEventKind::Added {
                id: id.clone(),
                membership: *membership,
            },
            LifecycleEventKind::Started { id, membership, incarnation } => {
                LifecycleEventKind::Started {
                    id: id.clone(),
                    membership: *membership,
                    incarnation: *incarnation,
                }
            },
            LifecycleEventKind::Ready { id, membership, incarnation } => {
                LifecycleEventKind::Ready {
                    id: id.clone(),
                    membership: *membership,
                    incarnation: *incarnation,
                }
            },
            LifecycleEventKind::Exited { id, membership, incarnation, exit } => {
                LifecycleEventKind::Exited {
                    id: id.clone(),
                    membership: *membership,
                    incarnation: *incarnation,
                    exit: *exit,
                }
            },
            LifecycleEventKind::RestartScheduled { id, membership, attempt, delay } => {
                LifecycleEventKind::RestartScheduled {
                    id: id.clone(),
                    membership: *membership,
                    attempt: *attempt,
                    delay: *delay,
                }
            },
            LifecycleEventKind::Removed { id, membership, last_incarnation } => {
                LifecycleEventKind::Removed {
                    id: id.clone(),
                    membership: *membership,
                    last_incarnation: *last_incarnation,
                }
            },
            LifecycleEventKind::ScopeState { state } => LifecycleEventKind::ScopeState {
                state: *state,
            },
        }
    }
}

/// Failure of a wait for a child.
#[derive(Clone, Copy, Debug, PartialEq, Eq, Structural)]
#[non_exhaustive]
pub enum WaitError {
    /// The deadline elapsed before a matching child appeared.
    TimedOut,
    /// The observed scope membership terminalized before a match.
    ScopeTerminated {
        /// Final scope state.
        state: ScopeState,
    },
}

impl WaitError {
    /// The diagnostic.
    pub fn message(self) -> (text: &'static str)
        ensures
            text@ == match self {
                WaitError::TimedOut => "child wait timed out"@,
                WaitError::ScopeTerminated { .. } => "scope terminated before a child matched"@,
            },
    {
        match self {
            WaitError::TimedOut => "child wait timed out",
            WaitError::ScopeTerminated { .. } => "scope terminated before a child matched",
        }
    }
}

} // verus!
