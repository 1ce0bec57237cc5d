//! Sends and calls as poll-driven state machines.

use crate::identity::Incarnation;
use crate::mailbox::cell::MailboxCell;
use crate::mailbox::deadline::{DeadlineOperation, DeadlinePhase, Deadlined};
use crate::mailbox::effects::MailboxEffects;
use crate::mailbox::model::{no_effects, EffectsModel, MailboxModel, Submission};
use crate::mailbox::operation::{
    OperationOutcome, OperationPoll, WakerEffect, WakerId, WithdrawalDisposition, WithdrawalOutcome,
};
use crate::mailbox::state::{all_waiting, WaiterId};
use crate::mailbox::{SendError, SendErrorKind};
use crate::poll::Poll;
use crate::time::{Deadline, DeadlineBudget};
use crate::table::{ascending, has_key, index_of, lemma_index_is_unique};
use vstd::prelude::*;

verus! {

/// How far a send has come.
#[derive(Debug)]
pub enum SendFutureState<M> {
    /// Never polled; still holds its message.
    Immediate(M),
    /// Parked behind the mailbox.
    Parked(WaiterId),
    /// Accepted; stays observable.
    Sent(Incarnation),
    /// Finished unsuccessfully, or withdrawn.
    Done,
}

/// A send that waits for acceptance. Dropping it withdraws the message.
#[derive(Debug)]
pub struct SendFuture<M> {
    /// How far the send has come.
    pub state: SendFutureState<M>,
}

/// How a send ended.
pub enum SendVerdict<M> {
    /// Accepted by this incarnation.
    Accepted(Incarnation),
    /// Not accepted.
    Failed {
        /// The newest incarnation seen.
        observed: Option<Incarnation>,
        /// The unaccepted message.
        message: M,
        /// Why it failed.
        kind: SendErrorKind,
    },
}

/// Whether `result` reports `verdict` for the actor named `actor`.
pub open spec fn reports<M>(
    result: Result<Incarnation, SendError<M>>,
    verdict: SendVerdict<M>,
    actor: Seq<char>,
) -> bool {
    match (result, verdict) {
        (Ok(incarnation), SendVerdict::Accepted(accepting)) => incarnation == accepting,
        (Err(error), SendVerdict::Failed { observed, message, kind }) => {
            &&& error.actor_id@ == actor
            &&& error.incarnation_observed == observed
            &&& error.message == message
            &&& error.kind == kind
        },
        _ => false,
    }
}

/// Everything one poll of a send changes and owes.
pub struct SendStep<M> {
    /// How far the send has then come.
    pub state: SendFutureState<M>,
    /// The mailbox after the poll.
    pub mailbox: MailboxModel<M>,
    /// How the send ended, or `None` while it waits.
    pub verdict: Option<SendVerdict<M>>,
    /// What the poll owes its surroundings.
    pub effects: EffectsModel<M>,
    /// Whether the caller's waker is cloned.
    pub cloned: bool,
}

impl<M> SendFutureState<M> {
    /// Whether the mailbox still knows a parked send.
    pub open spec fn known_to(self, mailbox: MailboxModel<M>) -> bool {
        self matches SendFutureState::Parked(id) ==> mailbox.live(id.0)
    }

    /// One poll of a parked send.
    pub open spec fn parked_step(
        id: WaiterId,
        mailbox: MailboxModel<M>,
        waker: WakerId,
    ) -> SendStep<M> {
        let operation = mailbox.operation(id.0)->Some_0;
        match operation.outcome {
            OperationOutcome::Accepted(incarnation) => SendStep {
                state: SendFutureState::Sent(incarnation),
                mailbox: mailbox.without(id.0),
                verdict: Some(SendVerdict::Accepted(incarnation)),
                effects: no_effects(),
                cloned: false,
            },
            OperationOutcome::Terminated { message, final_incarnation } => SendStep {
                state: SendFutureState::Done,
                mailbox: mailbox.without(id.0),
                verdict: Some(
                    SendVerdict::Failed {
                        observed: final_incarnation,
                        message,
                        kind: SendErrorKind::Terminated,
                    },
                ),
                effects: no_effects(),
                cloned: false,
            },
            _ => if operation.waker == Some(waker) {
                SendStep {
                    state: SendFutureState::Parked(id),
                    mailbox,
                    verdict: None,
                    effects: no_effects(),
                    cloned: false,
                }
            } else {
                SendStep {
                    state: SendFutureState::Parked(id),
                    mailbox: mailbox.polled(id.0, Some(waker)),
                    verdict: None,
                    effects: EffectsModel {
                        wakers: operation.poll_drops(Some(waker)),
                        ..no_effects()
                    },
                    cloned: true,
                }
            },
        }
    }

    /// One poll of a send. An unsubmitted one is submitted; a caller's waker is
    /// cloned only where the send has to wait for a different one.
    pub open spec fn step(self, mailbox: MailboxModel<M>, waker: WakerId) -> SendStep<M> {
        match self {
            SendFutureState::Immediate(message) => match mailbox.submission(message) {
                Submission::Accepted(incarnation) => SendStep {
                    state: SendFutureState::Sent(incarnation),
                    mailbox: mailbox.submitted(message),
                    verdict: Some(SendVerdict::Accepted(incarnation)),
                    effects: mailbox.submission_effects(),
                    cloned: false,
                },
                Submission::Parked(id) => SendStep {
                    state: SendFutureState::Parked(id),
                    mailbox: mailbox.submitted(message).polled(id.0, Some(waker)),
                    verdict: None,
                    effects: no_effects(),
                    cloned: true,
                },
                Submission::Terminated { message: unsent, final_incarnation } => SendStep {
                    state: SendFutureState::Done,
                    mailbox,
                    verdict: Some(
                        SendVerdict::Failed {
                            observed: final_incarnation,
                            message: unsent,
                            kind: SendErrorKind::Terminated,
                        },
                    ),
                    effects: no_effects(),
                    cloned: false,
                },
            },
            SendFutureState::Parked(id) => Self::parked_step(id, mailbox, waker),
            SendFutureState::Sent(incarnation) => SendStep {
                state: self,
                mailbox,
                verdict: Some(SendVerdict::Accepted(incarnation)),
                effects: no_effects(),
                cloned: false,
            },
            SendFutureState::Done => SendStep {
                state: self,
                mailbox,
                verdict: None,
                effects: no_effects(),
                cloned: false,
            },
        }
    }

    /// How withdrawing a send finds it. A send never submitted reports the
    /// incarnation observable now.
    pub open spec fn withdrawal(self, mailbox: MailboxModel<M>) -> Option<WithdrawalOutcome<M>> {
        match self {
            SendFutureState::Immediate(message) => Some(
                WithdrawalOutcome::Withdrawn { message, observed: mailbox.phase.observed() },
            ),
            SendFutureState::Parked(id) => mailbox.withdrawal(id.0),
            SendFutureState::Sent(incarnation) => Some(WithdrawalOutcome::Accepted(incarnation)),
            SendFutureState::Done => None,
        }
    }

    /// The mailbox once the send was withdrawn.
    pub open spec fn withdrawn_from(self, mailbox: MailboxModel<M>) -> MailboxModel<M> {
        match self {
            SendFutureState::Parked(id) => mailbox.without(id.0),
            _ => mailbox,
        }
    }

    /// What that withdrawal does with the registered waker.
    pub open spec fn withdrawal_wakers(
        self,
        mailbox: MailboxModel<M>,
        disposition: WithdrawalDisposition,
    ) -> Seq<WakerEffect> {
        match self {
            SendFutureState::Parked(id) => mailbox.withdrawal_wakers(id.0, disposition),
            _ => seq![],
        }
    }
}

/// What a withdrawal at the end of the budget reports.
pub open spec fn timed_out_verdict<M>(outcome: WithdrawalOutcome<M>) -> SendVerdict<M> {
    match outcome {
        WithdrawalOutcome::Withdrawn { message, observed } => SendVerdict::Failed {
            observed,
            message,
            kind: SendErrorKind::TimedOut,
        },
        WithdrawalOutcome::Accepted(incarnation) => SendVerdict::Accepted(incarnation),
        WithdrawalOutcome::Terminated { message, observed } => SendVerdict::Failed {
            observed,
            message,
            kind: SendErrorKind::Terminated,
        },
    }
}

/// One poll of a send, with what it owes.
#[derive(Debug)]
pub struct SendPoll<M> {
    /// How the send ended, if it has.
    pub result: Poll<Result<Incarnation, SendError<M>>>,
    /// What the poll owes its surroundings.
    pub effects: MailboxEffects<M>,
    /// Whether the caller's waker is cloned.
    pub cloned: bool,
}

impl<M> SendFuture<M> {
    /// Whether the send can be polled: it has not ended unsuccessfully, and the
    /// counters can take an unsubmitted message.
    pub open spec fn pollable_in(self, mailbox: MailboxModel<M>) -> bool {
        &&& mailbox.wf()
        &&& !(self.state is Done)
        &&& self.state.known_to(mailbox)
        &&& self.state is Immediate ==> mailbox.accepted < u64::MAX && mailbox.last_id < u64::MAX
    }

    /// A send that was not polled yet.
    pub fn new(message: M) -> (send: SendFuture<M>)
        ensures
            send.state == SendFutureState::Immediate(message),
    {
        SendFuture { state: SendFutureState::Immediate(message) }
    }

    /// Polls the send once on behalf of `waker`.
    pub fn poll(&mut self, mailbox: &mut MailboxCell<M>, waker: WakerId) -> (polled: SendPoll<M>)
        requires
            old(self).pollable_in(old(mailbox)@),
        ensures
            final(mailbox)@.wf(),
            final(self).state.known_to(final(mailbox)@),
            ({
                let step = old(self).state.step(old(mailbox)@, waker);
                &&& final(self).state == step.state
                &&& final(mailbox)@ == step.mailbox
                &&& polled.effects@ == step.effects
                &&& polled.cloned == step.cloned
                &&& match polled.result {
                    Poll::Pending => step.verdict is None,
                    Poll::Ready(result) => step.verdict matches Some(verdict) && reports(
                        result,
                        verdict,
                        old(mailbox)@.actor,
                    ),
                }
            }),
    {
        let mut taken = SendFutureState::Done;
        core::mem::swap(&mut self.state, &mut taken);
        match taken {
            SendFutureState::Immediate(message) => {
                let ghost before = mailbox@;
                let ghost sent = message;
                let (submission, effects) = mailbox.submit(message);
                match submission {
                    Submission::Accepted(incarnation) => {
                        self.state = SendFutureState::Sent(incarnation);
                        SendPoll { result: Poll::Ready(Ok(incarnation)), effects, cloned: false }
                    },
                    Submission::Parked(id) => {
                        proof {
                            lemma_freshly_parked(before, sent);
                        }
                        self.state = SendFutureState::Parked(id);
                        Self::poll_parked(self, mailbox, id, waker)
                    },
                    Submission::Terminated { message, final_incarnation } => {
                        let error = SendError {
                            actor_id: mailbox.actor_id(),
                            incarnation_observed: final_incarnation,
                            message,
                            kind: SendErrorKind::Terminated,
                        };
                        SendPoll { result: Poll::Ready(Err(error)), effects, cloned: false }
                    },
                }
            },
            SendFutureState::Sent(incarnation) => {
                self.state = SendFutureState::Sent(incarnation);
                SendPoll {
                    result: Poll::Ready(Ok(incarnation)),
                    effects: MailboxEffects::new(),
                    cloned: false,
                }
            },
            SendFutureState::Parked(id) => {
                self.state = SendFutureState::Parked(id);
                Self::poll_parked(self, mailbox, id, waker)
            },
            SendFutureState::Done => {
                assert(false);
                SendPoll { result: Poll::Pending, effects: MailboxEffects::new(), cloned: false }
            },
        }
    }

    /// Polls a parked send. The outcome is read first; only a send that has to
    /// wait for a different waker clones the caller's and installs it after
    /// reading the outcome again.
    fn poll_parked(
        &mut self,
        mailbox: &mut MailboxCell<M>,
        id: WaiterId,
        waker: WakerId,
    ) -> (polled: SendPoll<M>)
        requires
            old(mailbox)@.wf(),
            old(mailbox)@.live(id.0),
            old(self).state == SendFutureState::<M>::Parked(id),
        ensures
            final(mailbox)@.wf(),
            final(self).state.known_to(final(mailbox)@),
            ({
                let step = SendFutureState::parked_step(id, old(mailbox)@, waker);
                &&& final(self).state == step.state
                &&& final(mailbox)@ == step.mailbox
                &&& polled.effects@ == step.effects
                &&& polled.cloned == step.cloned
                &&& match polled.result {
                    Poll::Pending => step.verdict is None,
                    Poll::Ready(result) => step.verdict matches Some(verdict) && reports(
                        result,
                        verdict,
                        old(mailbox)@.actor,
                    ),
                }
            }),
    {
        let ghost before = mailbox@;
        proof {
            lemma_operation_kinds(before, id.0);
            lemma_unchanged_by_bare_poll(before, id.0);
        }
        let (first, drops) = mailbox.poll_operation(id, None, waker);
        let mut effects = MailboxEffects::new();
        effects.wakers = drops;
        match first {
            OperationPoll::Accepted(incarnation) => {
                self.state = SendFutureState::Sent(incarnation);
                SendPoll { result: Poll::Ready(Ok(incarnation)), effects, cloned: false }
            },
            OperationPoll::Terminated { message, final_incarnation } => {
                self.state = SendFutureState::Done;
                let error = SendError {
                    actor_id: mailbox.actor_id(),
                    incarnation_observed: final_incarnation,
                    message,
                    kind: SendErrorKind::Terminated,
                };
                SendPoll { result: Poll::Ready(Err(error)), effects, cloned: false }
            },
            OperationPoll::Pending => SendPoll { result: Poll::Pending, effects, cloned: false },
            OperationPoll::NeedsWakerClone => {
                proof {
                    lemma_waiting_stays_live(before, id.0, Some(waker));
                }
                let (_, drops) = mailbox.poll_operation(id, Some(waker), waker);
                effects.wakers = drops;
                SendPoll { result: Poll::Pending, effects, cloned: true }
            },
        }
    }
}

/// What cancelling a send leaves to dispose of, in order.
#[derive(Debug)]
pub struct SendCancellation<M> {
    /// The unaccepted message, for the disposal lane.
    pub message: Option<M>,
    /// The registered waker, for the disposal lane after the message.
    pub wakers: Vec<WakerEffect>,
}

/// The message a cancelled send recovers: none where acceptance came first or
/// nothing was left to recover.
pub open spec fn cancelled_message<M>(outcome: Option<WithdrawalOutcome<M>>) -> Option<M> {
    match outcome {
        Some(WithdrawalOutcome::Withdrawn { message, .. }) => Some(message),
        Some(WithdrawalOutcome::Terminated { message, .. }) => Some(message),
        _ => None,
    }
}

impl<M> SendFuture<M> {
    /// Withdraws the send, releasing the waker it registered.
    pub fn withdraw(
        &mut self,
        mailbox: &mut MailboxCell<M>,
        disposition: WithdrawalDisposition,
    ) -> (outcome: (WithdrawalOutcome<M>, Vec<WakerEffect>))
        requires
            old(mailbox)@.wf(),
            !(old(self).state is Done),
            old(self).state.known_to(old(mailbox)@),
        ensures
            final(mailbox)@.wf(),
            final(self).state is Done,
            final(mailbox)@ == old(self).state.withdrawn_from(old(mailbox)@),
            Some(outcome.0) == old(self).state.withdrawal(old(mailbox)@),
            outcome.1@ == old(self).state.withdrawal_wakers(old(mailbox)@, disposition),
    {
        let mut taken = SendFutureState::Done;
        core::mem::swap(&mut self.state, &mut taken);
        match taken {
            SendFutureState::Immediate(message) => (
                WithdrawalOutcome::Withdrawn { message, observed: mailbox.current_observation() },
                Vec::new(),
            ),
            SendFutureState::Parked(id) => {
                let (outcome, wakers) = mailbox.withdraw(id, disposition);
                (outcome.unwrap(), wakers)
            },
            SendFutureState::Sent(incarnation) => (
                WithdrawalOutcome::Accepted(incarnation),
                Vec::new(),
            ),
            SendFutureState::Done => vstd::pervasive::unreached(),
        }
    }

    /// Ends a send whose budget ran out: accepted after all, terminated, or
    /// timed out with its message returned. The waker is destroyed on the
    /// calling task.
    pub fn withdraw_send(&mut self, mailbox: &mut MailboxCell<M>) -> (outcome: (
        Result<Incarnation, SendError<M>>,
        Vec<WakerEffect>,
    ))
        requires
            old(mailbox)@.wf(),
            !(old(self).state is Done),
            old(self).state.known_to(old(mailbox)@),
        ensures
            final(mailbox)@.wf(),
            final(self).state is Done,
            final(mailbox)@ == old(self).state.withdrawn_from(old(mailbox)@),
            old(self).state.withdrawal(old(mailbox)@) matches Some(found) && reports(
                outcome.0,
                timed_out_verdict(found),
                old(mailbox)@.actor,
            ),
            outcome.1@ == old(self).state.withdrawal_wakers(
                old(mailbox)@,
                WithdrawalDisposition::Inline,
            ),
    {
        let actor_id = mailbox.actor_id();
        let (withdrawal, wakers) = self.withdraw(mailbox, WithdrawalDisposition::Inline);
        let result = match withdrawal {
            WithdrawalOutcome::Withdrawn { message, observed } => Err(
                SendError {
                    actor_id,
                    incarnation_observed: observed,
                    message,
                    kind: SendErrorKind::TimedOut,
                },
            ),
            WithdrawalOutcome::Accepted(incarnation) => Ok(incarnation),
            WithdrawalOutcome::Terminated { message, observed } => Err(
                SendError {
                    actor_id,
                    incarnation_observed: observed,
                    message,
                    kind: SendErrorKind::Terminated,
                },
            ),
        };
        (result, wakers)
    }

    /// Cancels the send. Its unaccepted message and its waker go to the
    /// disposal lane, the message first.
    pub fn cancel(self, mailbox: &mut MailboxCell<M>) -> (cancelled: SendCancellation<M>)
        requires
            old(mailbox)@.wf(),
        ensures
            final(mailbox)@.wf(),
            final(mailbox)@ == self.state.withdrawn_from(old(mailbox)@),
            cancelled.message == cancelled_message(self.state.withdrawal(old(mailbox)@)),
            cancelled.wakers@ == self.state.withdrawal_wakers(
                old(mailbox)@,
                WithdrawalDisposition::Isolated,
            ),
    {
        match self.state {
            SendFutureState::Immediate(message) => SendCancellation {
                message: Some(message),
                wakers: Vec::new(),
            },
            SendFutureState::Parked(id) => {
                let (outcome, wakers) = mailbox.withdraw(id, WithdrawalDisposition::Isolated);
                let message = match outcome {
                    Some(WithdrawalOutcome::Withdrawn { message, .. }) => Some(message),
                    Some(WithdrawalOutcome::Terminated { message, .. }) => Some(message),
                    Some(WithdrawalOutcome::Accepted(_)) => None,
                    None => None,
                };
                SendCancellation { message, wakers }
            },
            SendFutureState::Sent(_) => SendCancellation { message: None, wakers: Vec::new() },
            SendFutureState::Done => SendCancellation { message: None, wakers: Vec::new() },
        }
    }

    /// Whether the message was handed to the mailbox.
    pub fn submitted(&self) -> (submitted: bool)
        ensures
            submitted == !(self.state is Immediate),
    {
        !matches!(self.state, SendFutureState::Immediate(_))
    }

    /// Whether the send has ended.
    pub fn done(&self) -> (done: bool)
        ensures
            done == (self.state is Sent || self.state is Done),
    {
        matches!(self.state, SendFutureState::Sent(_) | SendFutureState::Done)
    }
}

/// A send that gives its message back once its budget runs out.
#[derive(Debug)]
pub struct TimedSend<M> {
    /// The send.
    pub send: SendFuture<M>,
}

/// What one pass over a send owes its surroundings.
#[derive(Debug)]
pub struct SendEffects<M> {
    /// What the mailbox transition owes.
    pub mailbox: MailboxEffects<M>,
    /// Whether the caller's waker is cloned.
    pub cloned: bool,
}

impl<M> DeadlineOperation for TimedSend<M> {
    type Env = MailboxCell<M>;

    type Output = Result<Incarnation, SendError<M>>;

    type Effects = SendEffects<M>;

    open spec fn pollable(self, env: MailboxCell<M>) -> bool {
        self.send.pollable_in(env@)
    }

    open spec fn endable(self, env: MailboxCell<M>) -> bool {
        &&& env@.wf()
        &&& !(self.send.state is Done)
        &&& self.send.state.known_to(env@)
    }

    open spec fn pass(
        self,
        env: MailboxCell<M>,
        waker: WakerId,
        budget: Deadline,
        phase: DeadlinePhase,
        after: TimedSend<M>,
        env_after: MailboxCell<M>,
        result: Poll<Result<Incarnation, SendError<M>>>,
        effects: SendEffects<M>,
    ) -> bool {
        let step = self.send.state.step(env@, waker);
        &&& effects.cloned == step.cloned
        &&& env_after@.wf()
        &&& match step.verdict {
            Some(verdict) => {
                &&& result matches Poll::Ready(reported)
                &&& reports(reported, verdict, env@.actor)
                &&& after.send.state == step.state
                &&& env_after@ == step.mailbox
                &&& effects.mailbox@ == step.effects
            },
            None => if phase is InitialAttempt {
                &&& result is Pending
                &&& after.send.state == step.state
                &&& env_after@ == step.mailbox
                &&& effects.mailbox@ == step.effects
            } else {
                &&& result matches Poll::Ready(reported)
                &&& step.state.withdrawal(step.mailbox) matches Some(found)
                &&& reports(reported, timed_out_verdict(found), env@.actor)
                &&& after.send.state is Done
                &&& env_after@ == step.state.withdrawn_from(step.mailbox)
                &&& effects.mailbox@ == (EffectsModel {
                    wakers: step.effects.wakers + step.state.withdrawal_wakers(
                        step.mailbox,
                        WithdrawalDisposition::Inline,
                    ),
                    ..step.effects
                })
            },
        }
    }

    open spec fn cut(
        self,
        env: MailboxCell<M>,
        after: TimedSend<M>,
        env_after: MailboxCell<M>,
        output: Result<Incarnation, SendError<M>>,
        effects: SendEffects<M>,
    ) -> bool {
        &&& self.send.state.withdrawal(env@) matches Some(found)
        &&& reports(output, timed_out_verdict(found), env@.actor)
        &&& after.send.state is Done
        &&& env_after@ == self.send.state.withdrawn_from(env@)
        &&& env_after@.wf()
        &&& !effects.cloned
        &&& effects.mailbox@ == (EffectsModel {
            wakers: self.send.state.withdrawal_wakers(env@, WithdrawalDisposition::Inline),
            ..no_effects::<M>()
        })
    }

    fn poll_deadlined(
        &mut self,
        env: &mut MailboxCell<M>,
        waker: WakerId,
        budget: Deadline,
        phase: DeadlinePhase,
    ) -> (outcome: (Poll<Result<Incarnation, SendError<M>>>, SendEffects<M>)) {
        let polled = self.send.poll(env, waker);
        let mut effects = SendEffects { mailbox: polled.effects, cloned: polled.cloned };
        match polled.result {
            Poll::Ready(result) => (Poll::Ready(result), effects),
            Poll::Pending => match phase {
                DeadlinePhase::InitialAttempt => (Poll::Pending, effects),
                DeadlinePhase::TimeoutArbitration => {
                    let (result, mut wakers) = self.send.withdraw_send(env);
                    effects.mailbox.wakers.append(&mut wakers);
                    (Poll::Ready(result), effects)
                },
            },
        }
    }

    fn short_circuit(&mut self, env: &mut MailboxCell<M>) -> (outcome: (
        Result<Incarnation, SendError<M>>,
        SendEffects<M>,
    )) {
        let (result, wakers) = self.send.withdraw_send(env);
        let mut effects = SendEffects { mailbox: MailboxEffects::new(), cloned: false };
        effects.mailbox.wakers = wakers;
        (result, effects)
    }
}

/// A send under one acceptance deadline.
#[derive(Debug)]
pub struct SendTimeout<M> {
    /// The send and its deadline.
    pub deadlined: Deadlined<TimedSend<M>>,
}

impl<M> SendTimeout<M> {
    /// A send of `message` that gives up once `budget` has passed.
    pub fn new(message: M, budget: DeadlineBudget) -> (timed: SendTimeout<M>)
        ensures
            timed.deadlined.wf(),
            !timed.deadlined.started,
            timed.deadlined.phase is InitialAttempt,
            timed.deadlined.budget_width == budget,
            timed.deadlined.operation.send.state == SendFutureState::Immediate(message),
    {
        SendTimeout {
            deadlined: Deadlined::no_attempt(
                TimedSend { send: SendFuture::new(message) },
                budget,
            ),
        }
    }
}

/// Polling a finished send reports acceptance every time.
pub proof fn law_an_accepted_send_stays_observable<M>(
    incarnation: Incarnation,
    mailbox: MailboxModel<M>,
    waker: WakerId,
)
    ensures
        ({
            let step = SendFutureState::<M>::Sent(incarnation).step(mailbox, waker);
            &&& step.verdict == Some(SendVerdict::<M>::Accepted(incarnation))
            &&& step.state == SendFutureState::<M>::Sent(incarnation)
            &&& step.mailbox == mailbox
            &&& !step.cloned
        }),
{
}

/// A poll that ends a send never clones the caller's waker, and polling again
/// with a waker that is already registered touches nothing.
pub proof fn law_only_waiting_clones_the_waker<M>(
    state: SendFutureState<M>,
    mailbox: MailboxModel<M>,
    waker: WakerId,
)
    requires
        mailbox.wf(),
        mailbox.last_id < u64::MAX,
        state.known_to(mailbox),
    ensures
        state.step(mailbox, waker).verdict is Some ==> !state.step(mailbox, waker).cloned,
        ({
            let first = state.step(mailbox, waker);
            let second = first.state.step(first.mailbox, waker);
            first.verdict is None ==> !second.cloned && second.mailbox == first.mailbox
                && second.verdict is None
        }),
{
    let first = state.step(mailbox, waker);
    if first.verdict is None {
        match state {
            SendFutureState::Immediate(message) => {
                let id = mailbox.submission(message)->Parked_0;
                lemma_freshly_parked(mailbox, message);
                lemma_registered(mailbox.submitted(message), id.0, waker);
            },
            SendFutureState::Parked(id) => {
                lemma_operation_kinds(mailbox, id.0);
                if first.cloned {
                    lemma_registered(mailbox, id.0, waker);
                }
            },
            _ => {},
        }
    }
}

/// After a waiting send was polled with a waker, that waker is registered.
proof fn lemma_registered<M>(mailbox: MailboxModel<M>, id: u64, waker: WakerId)
    requires
        ascending(mailbox.waiters),
        ascending(mailbox.detached),
        all_waiting(mailbox.waiters),
        all_waiting(mailbox.detached),
        has_key(mailbox.waiters, id) || has_key(mailbox.detached, id),
    ensures
        mailbox.polled(id, Some(waker)).operation(id) matches Some(operation)
            && operation.is_waiting() && operation.waker == Some(waker),
{
    let after = mailbox.polled(id, Some(waker));
    if has_key(mailbox.waiters, id) {
        let index = index_of(mailbox.waiters, id);
        assert(mailbox.waiters[index].1.is_waiting());
        assert(after.waiters[index].0 == id);
        assert forall|i: int, j: int| 0 <= i < j < after.waiters.len() implies after.waiters[i].0
            < after.waiters[j].0 by {
            assert(mailbox.waiters[i].0 < mailbox.waiters[j].0);
        }
        lemma_index_is_unique(after.waiters, index);
    } else {
        let index = index_of(mailbox.detached, id);
        assert(mailbox.detached[index].1.is_waiting());
        assert(after.detached[index].0 == id);
        assert forall|i: int, j: int| 0 <= i < j < after.detached.len() implies after.detached[i].0
            < after.detached[j].0 by {
            assert(mailbox.detached[i].0 < mailbox.detached[j].0);
        }
        lemma_index_is_unique(after.detached, index);
    }
}

/// A send that was just parked waits with no waker, and its first poll
/// displaces none.
proof fn lemma_freshly_parked<M>(mailbox: MailboxModel<M>, message: M)
    requires
        mailbox.wf(),
        mailbox.last_id < u64::MAX,
        mailbox.submission(message) is Parked,
    ensures
        ({
            let id = mailbox.submission(message)->Parked_0.0;
            let after = mailbox.submitted(message);
            &&& after.live(id)
            &&& has_key(after.waiters, id)
            &&& after.operation(id) matches Some(operation)
            &&& operation.is_waiting()
            &&& operation.waker is None
        }),
        mailbox.submission_effects() == no_effects::<M>(),
{
    let id = mailbox.submission(message)->Parked_0.0;
    let after = mailbox.submitted(message);
    let last = after.waiters.len() - 1;
    assert(after.waiters[last].0 == id);
    assert forall|i: int, j: int| 0 <= i < j < after.waiters.len() implies after.waiters[i].0
        < after.waiters[j].0 by {
        if j == last {
            assert(mailbox.waiters[i].0 <= mailbox.last_id);
        }
    }
    lemma_index_is_unique(after.waiters, last);
}

/// A live send waits where it is parked or detached, and is decided where it is
/// settled.
proof fn lemma_operation_kinds<M>(mailbox: MailboxModel<M>, id: u64)
    requires
        mailbox.wf(),
        mailbox.live(id),
    ensures
        mailbox.operation(id) is Some,
        has_key(mailbox.waiters, id) || has_key(mailbox.detached, id) <==> mailbox.operation(
            id,
        )->Some_0.is_waiting(),
        !(mailbox.operation(id)->Some_0.outcome is Retired),
{
    if has_key(mailbox.waiters, id) {
        assert(mailbox.waiters[index_of(mailbox.waiters, id)].1.is_waiting());
    } else if has_key(mailbox.detached, id) {
        assert(mailbox.detached[index_of(mailbox.detached, id)].1.is_waiting());
    } else {
        let row = mailbox.settled[index_of(mailbox.settled, id)];
        assert(row.1.outcome is Accepted || row.1.outcome is Terminated);
    }
}

/// Polling a waiting send without offering a waker changes nothing.
proof fn lemma_unchanged_by_bare_poll<M>(mailbox: MailboxModel<M>, id: u64)
    requires
        mailbox.wf(),
        mailbox.live(id),
    ensures
        has_key(mailbox.waiters, id) || has_key(mailbox.detached, id) ==> mailbox.polled(id, None)
            == mailbox,
{
    if has_key(mailbox.waiters, id) {
        let index = index_of(mailbox.waiters, id);
        assert(mailbox.waiters[index].1.is_waiting());
        assert(mailbox.polled(id, None).waiters =~= mailbox.waiters);
    } else if has_key(mailbox.detached, id) {
        let index = index_of(mailbox.detached, id);
        assert(mailbox.detached[index].1.is_waiting());
        assert(mailbox.polled(id, None).detached =~= mailbox.detached);
    }
}

/// A send that still waits stays known to its mailbox when polled.
proof fn lemma_waiting_stays_live<M>(
    mailbox: MailboxModel<M>,
    id: u64,
    replacement: Option<WakerId>,
)
    requires
        mailbox.wf(),
        has_key(mailbox.waiters, id) || has_key(mailbox.detached, id),
    ensures
        mailbox.polled(id, replacement).live(id),
{
    let after = mailbox.polled(id, replacement);
    if has_key(mailbox.waiters, id) {
        assert(after.waiters[index_of(mailbox.waiters, id)].0 == id);
        assert(has_key(after.waiters, id));
    } else {
        assert(after.detached[index_of(mailbox.detached, id)].0 == id);
        assert(has_key(after.detached, id));
    }
}

} // verus!
