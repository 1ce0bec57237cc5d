//! One parked send and the outcomes it can reach.

use crate::identity::Incarnation;
use vstd::prelude::*;

verus! {

/// Names a caller's waker. Two wakers that would wake the same task share an id.
#[derive(Clone, Copy, Debug, PartialEq, Eq, Structural, Hash)]
pub struct WakerId(pub u64);

/// What becomes of a caller's waker once no lock is held.
#[derive(Clone, Copy, Debug, PartialEq, Eq, Structural)]
pub enum WakerEffect {
    /// Wake the task and release the waker.
    Wake(WakerId),
    /// Destroy the waker on the calling task.
    DropInline(WakerId),
    /// Destroy the waker on the disposal lane.
    Dispose(WakerId),
}

/// Where a send operation stands. A variant that carries the message owns it.
#[derive(Debug)]
pub enum OperationOutcome<M> {
    /// Not accepted yet.
    Waiting {
        /// The message to deliver.
        message: M,
        /// Newest incarnation seen while waiting.
        newest_observed: Option<Incarnation>,
    },
    /// Accepted by this incarnation.
    Accepted(Incarnation),
    /// The mailbox terminated first.
    Terminated {
        /// The message, returned unaccepted.
        message: M,
        /// The last incarnation the mailbox was bound to.
        final_incarnation: Option<Incarnation>,
    },
    /// The owning send has taken the outcome.
    Retired,
}

/// One send that could not be accepted at once.
#[derive(Debug)]
pub struct SendOperation<M> {
    /// Where the send stands.
    pub outcome: OperationOutcome<M>,
    /// The caller's registered waker.
    pub waker: Option<WakerId>,
}

/// What polling a send operation reports.
#[derive(Debug)]
pub enum OperationPoll<M> {
    /// Accepted by this incarnation.
    Accepted(Incarnation),
    /// The mailbox terminated; the message is handed back.
    Terminated {
        /// The unaccepted message.
        message: M,
        /// The last incarnation the mailbox was bound to.
        final_incarnation: Option<Incarnation>,
    },
    /// Still waiting, with a waker registered.
    Pending,
    /// Still waiting; the caller has to supply a clone of its waker.
    NeedsWakerClone,
}

impl<M> SendOperation<M> {
    /// A fresh operation.
    pub fn new(message: M, newest_observed: Option<Incarnation>) -> (operation: SendOperation<M>)
        ensures
            operation == Self::waiting(message, newest_observed),
    {
        SendOperation { outcome: OperationOutcome::Waiting { message, newest_observed }, waker: None }
    }

    /// An operation that waits with no waker registered.
    pub open spec fn waiting(message: M, newest_observed: Option<Incarnation>) -> SendOperation<M> {
        SendOperation { outcome: OperationOutcome::Waiting { message, newest_observed }, waker: None }
    }

    /// Whether the operation still waits.
    pub open spec fn is_waiting(self) -> bool {
        self.outcome is Waiting
    }

    /// The operation after it has seen `incarnation` bind.
    pub open spec fn observed(self, incarnation: Incarnation) -> SendOperation<M> {
        match self.outcome {
            OperationOutcome::Waiting { message, .. } => SendOperation {
                outcome: OperationOutcome::Waiting { message, newest_observed: Some(incarnation) },
                ..self
            },
            _ => self,
        }
    }

    /// Records that `incarnation` bound while the operation waits.
    pub fn observe(&mut self, incarnation: Incarnation)
        ensures
            *final(self) == old(self).observed(incarnation),
    {
        match &mut self.outcome {
            OperationOutcome::Waiting { newest_observed, .. } => {
                *newest_observed = Some(incarnation);
            },
            _ => {},
        }
    }

    /// The wake that leaving `Waiting` owes the caller.
    pub open spec fn wakes(self) -> Seq<WakerEffect> {
        match self.waker {
            Some(waker) => seq![WakerEffect::Wake(waker)],
            None => seq![],
        }
    }

    /// Leaves `Waiting` for `Accepted`, moving the message out. Any other
    /// outcome stays in place and yields `None`.
    pub fn accept(&mut self, incarnation: Incarnation, wakers: &mut Vec<WakerEffect>) -> (message:
        Option<M>)
        ensures
            old(self).outcome matches OperationOutcome::Waiting { message: waiting, .. } ==> {
                &&& message == Some(waiting)
                &&& *final(self) == (SendOperation::<M> {
                    outcome: OperationOutcome::Accepted(incarnation),
                    waker: None,
                })
                &&& final(wakers)@ == old(wakers)@ + old(self).wakes()
            },
            !old(self).is_waiting() ==> message is None && *final(self) == *old(self)
                && final(wakers)@ == old(wakers)@,
    {
        let mut outcome = OperationOutcome::Accepted(incarnation);
        core::mem::swap(&mut self.outcome, &mut outcome);
        match outcome {
            OperationOutcome::Waiting { message, .. } => {
                if let Some(waker) = self.waker.take() {
                    wakers.push(WakerEffect::Wake(waker));
                }
                Some(message)
            },
            other => {
                self.outcome = other;
                None
            },
        }
    }

    /// The operation once its mailbox has terminated.
    pub open spec fn terminated(self, final_incarnation: Option<Incarnation>) -> SendOperation<M> {
        match self.outcome {
            OperationOutcome::Waiting { message, .. } => SendOperation {
                outcome: OperationOutcome::Terminated { message, final_incarnation },
                waker: None,
            },
            _ => self,
        }
    }

    /// Leaves `Waiting` for `Terminated`, keeping the message for its sender.
    pub fn terminate(
        &mut self,
        final_incarnation: Option<Incarnation>,
        wakers: &mut Vec<WakerEffect>,
    )
        ensures
            *final(self) == old(self).terminated(final_incarnation),
            final(wakers)@ == if old(self).is_waiting() {
                old(wakers)@ + old(self).wakes()
            } else {
                old(wakers)@
            },
    {
        let mut outcome = OperationOutcome::Retired;
        core::mem::swap(&mut self.outcome, &mut outcome);
        match outcome {
            OperationOutcome::Waiting { message, .. } => {
                if let Some(waker) = self.waker.take() {
                    wakers.push(WakerEffect::Wake(waker));
                }
                self.outcome = OperationOutcome::Terminated { message, final_incarnation };
            },
            other => {
                self.outcome = other;
            },
        }
    }

    /// What a poll by `current`, offering `replacement`, reports.
    pub open spec fn poll_result(
        self,
        replacement: Option<WakerId>,
        current: WakerId,
    ) -> OperationPoll<M> {
        match self.outcome {
            OperationOutcome::Accepted(incarnation) => OperationPoll::Accepted(incarnation),
            OperationOutcome::Terminated { message, final_incarnation } =>
                OperationPoll::Terminated { message, final_incarnation },
            _ => if replacement is Some || self.waker == Some(current) {
                OperationPoll::Pending
            } else {
                OperationPoll::NeedsWakerClone
            },
        }
    }

    /// The operation after that poll.
    pub open spec fn after_poll(self, replacement: Option<WakerId>) -> SendOperation<M> {
        match self.outcome {
            OperationOutcome::Waiting { .. } if replacement is Some => SendOperation {
                waker: replacement,
                ..self
            },
            OperationOutcome::Terminated { .. } => SendOperation {
                outcome: OperationOutcome::Retired,
                ..self
            },
            _ => self,
        }
    }

    /// The wakers that poll destroys: the one a replacement displaces, or the
    /// replacement itself where nothing waits any more.
    pub open spec fn poll_drops(self, replacement: Option<WakerId>) -> Seq<WakerEffect> {
        match replacement {
            None => seq![],
            Some(offered) => if !self.is_waiting() {
                seq![WakerEffect::DropInline(offered)]
            } else {
                match self.waker {
                    Some(stale) => seq![WakerEffect::DropInline(stale)],
                    None => seq![],
                }
            },
        }
    }

    /// Reports the outcome, or registers a waker.
    ///
    /// An operation that no longer waits refuses `replacement`, which is
    /// destroyed before the outcome is handed out. A terminal outcome is
    /// handed out once.
    pub fn poll(
        &mut self,
        replacement: Option<WakerId>,
        current: WakerId,
        wakers: &mut Vec<WakerEffect>,
    ) -> (result: OperationPoll<M>)
        requires
            !(old(self).outcome is Retired),
        ensures
            result == old(self).poll_result(replacement, current),
            *final(self) == old(self).after_poll(replacement),
            final(wakers)@ == old(wakers)@ + old(self).poll_drops(replacement),
    {
        let mut outcome = OperationOutcome::Retired;
        core::mem::swap(&mut self.outcome, &mut outcome);
        match outcome {
            OperationOutcome::Accepted(incarnation) => {
                if let Some(offered) = replacement {
                    wakers.push(WakerEffect::DropInline(offered));
                }
                self.outcome = OperationOutcome::Accepted(incarnation);
                OperationPoll::Accepted(incarnation)
            },
            OperationOutcome::Terminated { message, final_incarnation } => {
                if let Some(offered) = replacement {
                    wakers.push(WakerEffect::DropInline(offered));
                }
                OperationPoll::Terminated { message, final_incarnation }
            },
            OperationOutcome::Waiting { message, newest_observed } => {
                self.outcome = OperationOutcome::Waiting { message, newest_observed };
                match replacement {
                    Some(offered) => {
                        if let Some(stale) = self.waker.take() {
                            wakers.push(WakerEffect::DropInline(stale));
                        }
                        self.waker = Some(offered);
                        OperationPoll::Pending
                    },
                    None => match self.waker {
                        Some(registered) => if registered == current {
                            OperationPoll::Pending
                        } else {
                            OperationPoll::NeedsWakerClone
                        },
                        None => OperationPoll::NeedsWakerClone,
                    },
                }
            },
            OperationOutcome::Retired => {
                assert(false);
                OperationPoll::Pending
            },
        }
    }
}

/// How a withdrawn send's waker is destroyed.
#[derive(Clone, Copy, Debug, PartialEq, Eq, Structural)]
pub enum WithdrawalDisposition {
    /// On the task that withdraws.
    Inline,
    /// On the disposal lane.
    Isolated,
}

impl WithdrawalDisposition {
    /// The effect this disposition has on a waker.
    pub open spec fn effect(self, waker: WakerId) -> WakerEffect {
        match self {
            WithdrawalDisposition::Inline => WakerEffect::DropInline(waker),
            WithdrawalDisposition::Isolated => WakerEffect::Dispose(waker),
        }
    }

    /// The effect this disposition has on a waker.
    pub fn action(self, waker: WakerId) -> (effect: WakerEffect)
        ensures
            effect == self.effect(waker),
    {
        match self {
            WithdrawalDisposition::Inline => WakerEffect::DropInline(waker),
            WithdrawalDisposition::Isolated => WakerEffect::Dispose(waker),
        }
    }
}

/// How a withdrawal found its send.
#[derive(Debug)]
pub enum WithdrawalOutcome<M> {
    /// Never accepted; the message comes back.
    Withdrawn {
        /// The unaccepted message.
        message: M,
        /// Newest incarnation seen by the attempt.
        observed: Option<Incarnation>,
    },
    /// Acceptance came first.
    Accepted(Incarnation),
    /// Termination came first; the message comes back.
    Terminated {
        /// The unaccepted message.
        message: M,
        /// The last incarnation the mailbox was bound to.
        observed: Option<Incarnation>,
    },
}

} // verus!
