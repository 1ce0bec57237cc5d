//! Calls: a request, its acceptance and its reply under one deadline.

use crate::identity::Incarnation;
use crate::mailbox::cell::MailboxCell;
use crate::mailbox::deadline::{DeadlineOperation, DeadlinePhase, Deadlined};
use crate::mailbox::effects::MailboxEffects;
use crate::mailbox::futures::{
    reports, timed_out_verdict, SendFuture, SendFutureState, SendVerdict,
};
use crate::mailbox::model::{no_effects, EffectsModel, MailboxModel};
use crate::mailbox::operation::{WakerEffect, WakerId, WithdrawalDisposition};
use crate::mailbox::reply::{retired, OneShot, ReplyEffects, ReplyPoll};
use crate::mailbox::{CallError, CallErrorKind, Replied, SendErrorKind};
use crate::poll::Poll;
use crate::time::{Deadline, DeadlineBudget, Instant};
use core::marker::PhantomData;
use vstd::prelude::*;

verus! {

/// How far a call has come.
#[derive(Debug)]
pub enum CallStage<M> {
    /// The request is not built yet.
    Unstarted,
    /// The request is on its way to acceptance.
    Sending(SendFuture<M>),
    /// Accepted by this incarnation; the reply is awaited.
    Accepted(Incarnation),
    /// Ended.
    Done,
}

/// A call, as an operation a deadline can end.
#[derive(Debug)]
pub struct CallOperation<M, T> {
    /// How far the call has come.
    pub stage: CallStage<M>,
    /// The reply's type.
    pub marker: PhantomData<T>,
}

/// What a call works on.
#[derive(Debug)]
pub struct CallEnv<M, T> {
    /// The addressed mailbox.
    pub mailbox: MailboxCell<M>,
    /// The reply channel whose capability the request carries.
    pub reply: OneShot<T>,
    /// The request, once its constructor has run.
    pub message: Option<M>,
    /// The time once the constructor has run.
    pub now: Instant,
}

/// What one pass over a call owes its surroundings, in this order.
#[derive(Debug)]
pub struct CallEffects<M> {
    /// What the mailbox transition owes.
    pub mailbox: MailboxEffects<M>,
    /// Whether the send cloned the caller's waker.
    pub send_cloned: bool,
    /// What the reply channel owes.
    pub reply: ReplyEffects,
    /// A request nobody will accept, for the disposal lane.
    pub disposed: Option<M>,
}

/// How a call ended.
pub enum CallVerdict<T> {
    /// Answered with this value by the incarnation that accepted the request.
    Replied(T, Incarnation),
    /// Failed, having seen this incarnation.
    Failed(Option<Incarnation>, CallErrorKind),
}

/// Everything one pass over a call changes and owes.
pub struct CallStep<M, T> {
    /// How far the send has come, while the request is on its way.
    pub sending: Option<SendFutureState<M>>,
    /// The accepting incarnation, once there is one.
    pub accepted: Option<Incarnation>,
    /// The mailbox afterwards.
    pub mailbox: MailboxModel<M>,
    /// The reply channel afterwards.
    pub reply: OneShot<T>,
    /// How the call ended, or `None` while it waits.
    pub verdict: Option<CallVerdict<T>>,
    /// What the mailbox transition owes.
    pub effects: EffectsModel<M>,
    /// Whether the send cloned the caller's waker.
    pub send_cloned: bool,
    /// Whether the reply channel cloned the caller's waker.
    pub reply_cloned: bool,
    /// What the reply channel does with wakers.
    pub reply_wakers: Seq<WakerEffect>,
    /// A request nobody will accept.
    pub disposed: Option<M>,
}

/// Whether `result` reports `verdict` for the actor named `actor`.
pub open spec fn call_reports<T>(
    result: Result<Replied<T>, CallError>,
    verdict: CallVerdict<T>,
    actor: Seq<char>,
) -> bool {
    match (result, verdict) {
        (Ok(replied), CallVerdict::Replied(value, incarnation)) => replied.value == value
            && replied.incarnation == incarnation,
        (Err(error), CallVerdict::Failed(observed, kind)) => error.actor_id@ == actor
            && error.incarnation_observed == observed && error.kind == kind,
        _ => false,
    }
}

/// How a call fails when its send does.
pub open spec fn failure_kind(kind: SendErrorKind) -> CallErrorKind {
    match kind {
        SendErrorKind::TimedOut => CallErrorKind::AcceptanceTimedOut,
        _ => CallErrorKind::Terminated,
    }
}

/// What the reply channel's answer means to a call accepted by `incarnation`.
pub open spec fn reply_verdict<T>(
    polled: Poll<ReplyPoll<T>>,
    incarnation: Incarnation,
) -> Option<CallVerdict<T>> {
    match polled {
        Poll::Ready(ReplyPoll::Value(value)) => Some(CallVerdict::Replied(value, incarnation)),
        Poll::Ready(ReplyPoll::SenderClosed) => Some(
            CallVerdict::Failed(Some(incarnation), CallErrorKind::ReplyDropped),
        ),
        Poll::Ready(ReplyPoll::TimedOut) => Some(
            CallVerdict::Failed(Some(incarnation), CallErrorKind::ResponseTimedOut),
        ),
        Poll::Pending => None,
    }
}

/// Polling the reply of a call that `incarnation` accepted.
pub open spec fn awaiting_step<M, T>(
    incarnation: Incarnation,
    mailbox: MailboxModel<M>,
    effects: EffectsModel<M>,
    send_cloned: bool,
    reply: OneShot<T>,
    waker: WakerId,
    phase: DeadlinePhase,
) -> CallStep<M, T> {
    let step = reply.reply_step(waker, phase);
    CallStep {
        sending: None,
        accepted: Some(incarnation),
        mailbox,
        reply: step.channel,
        verdict: reply_verdict(step.result, incarnation),
        effects,
        send_cloned,
        reply_cloned: step.cloned,
        reply_wakers: step.wakers,
        disposed: None,
    }
}

/// A call whose request was not accepted: the channel closes and the request is
/// disposed of.
pub open spec fn refused_step<M, T>(
    observed: Option<Incarnation>,
    message: M,
    kind: SendErrorKind,
    mailbox: MailboxModel<M>,
    effects: EffectsModel<M>,
    send_cloned: bool,
    reply: OneShot<T>,
) -> CallStep<M, T> {
    CallStep {
        sending: None,
        accepted: None,
        mailbox,
        reply: OneShot { closed: true, waker: None, ..reply },
        verdict: Some(CallVerdict::Failed(observed, failure_kind(kind))),
        effects,
        send_cloned,
        reply_cloned: false,
        reply_wakers: retired(reply.waker),
        disposed: Some(message),
    }
}

/// Polling a call whose send has come as far as `state`.
pub open spec fn sending_step<M, T>(
    state: SendFutureState<M>,
    mailbox: MailboxModel<M>,
    reply: OneShot<T>,
    waker: WakerId,
    phase: DeadlinePhase,
) -> CallStep<M, T> {
    let step = state.step(mailbox, waker);
    match step.verdict {
        Some(SendVerdict::Accepted(incarnation)) => awaiting_step(
            incarnation,
            step.mailbox,
            step.effects,
            step.cloned,
            reply,
            waker,
            phase,
        ),
        Some(SendVerdict::Failed { observed, message, kind }) => refused_step(
            observed,
            message,
            kind,
            step.mailbox,
            step.effects,
            step.cloned,
            reply,
        ),
        None => if phase is InitialAttempt {
            CallStep {
                sending: Some(step.state),
                accepted: None,
                mailbox: step.mailbox,
                reply,
                verdict: None,
                effects: step.effects,
                send_cloned: step.cloned,
                reply_cloned: false,
                reply_wakers: seq![],
                disposed: None,
            }
        } else {
            let withdrawn = step.state.withdrawn_from(step.mailbox);
            let effects = EffectsModel {
                wakers: step.effects.wakers + step.state.withdrawal_wakers(
                    step.mailbox,
                    WithdrawalDisposition::Inline,
                ),
                ..step.effects
            };
            match timed_out_verdict(step.state.withdrawal(step.mailbox)->Some_0) {
                SendVerdict::Accepted(incarnation) => awaiting_step(
                    incarnation,
                    withdrawn,
                    effects,
                    step.cloned,
                    reply,
                    waker,
                    phase,
                ),
                SendVerdict::Failed { observed, message, kind } => refused_step(
                    observed,
                    message,
                    kind,
                    withdrawn,
                    effects,
                    step.cloned,
                    reply,
                ),
            }
        },
    }
}

/// A call that ends with nothing submitted.
pub open spec fn unsubmitted_step<M, T>(
    mailbox: MailboxModel<M>,
    reply: OneShot<T>,
    disposed: Option<M>,
) -> CallStep<M, T> {
    CallStep {
        sending: None,
        accepted: None,
        mailbox,
        reply,
        verdict: Some(
            CallVerdict::Failed(mailbox.phase.observed(), CallErrorKind::AcceptanceTimedOut),
        ),
        effects: no_effects(),
        send_cloned: false,
        reply_cloned: false,
        reply_wakers: seq![],
        disposed,
    }
}

impl<M, T> CallOperation<M, T> {
    /// One pass over the call. A request whose construction overran the budget
    /// is never submitted.
    pub open spec fn step(
        self,
        env: CallEnv<M, T>,
        waker: WakerId,
        budget: Deadline,
        phase: DeadlinePhase,
    ) -> CallStep<M, T> {
        match self.stage {
            CallStage::Unstarted => if phase is TimeoutArbitration {
                unsubmitted_step(env.mailbox@, env.reply, None)
            } else if budget.overdue(env.now) {
                unsubmitted_step(env.mailbox@, env.reply, env.message)
            } else {
                sending_step(
                    SendFutureState::Immediate(env.message->Some_0),
                    env.mailbox@,
                    env.reply,
                    waker,
                    phase,
                )
            },
            CallStage::Sending(send) => sending_step(
                send.state,
                env.mailbox@,
                env.reply,
                waker,
                phase,
            ),
            CallStage::Accepted(incarnation) => awaiting_step(
                incarnation,
                env.mailbox@,
                no_effects(),
                false,
                env.reply,
                waker,
                phase,
            ),
            CallStage::Done => unsubmitted_step(env.mailbox@, env.reply, None),
        }
    }

    /// Whether the operation stands where `step` left it.
    pub open spec fn stands_at(self, step: CallStep<M, T>) -> bool {
        match step.accepted {
            Some(incarnation) => self.stage == CallStage::<M>::Accepted(incarnation),
            None => match step.sending {
                Some(state) => self.stage matches CallStage::Sending(send) && send.state == state,
                None => self.stage is Done,
            },
        }
    }

    /// A call whose request is not built yet.
    pub fn new() -> (operation: CallOperation<M, T>)
        ensures
            operation.stage is Unstarted,
    {
        CallOperation { stage: CallStage::Unstarted, marker: PhantomData }
    }

    /// The incarnation that accepted the request.
    pub fn accepted(&self) -> (incarnation: Option<Incarnation>)
        ensures
            incarnation == match self.stage {
                CallStage::Accepted(accepting) => Some(accepting),
                _ => None,
            },
    {
        match self.stage {
            CallStage::Accepted(accepting) => Some(accepting),
            _ => None,
        }
    }

    /// Ends a call whose request was not accepted.
    fn fail_send(
        env: &mut CallEnv<M, T>,
        observed: Option<Incarnation>,
        message: M,
        kind: SendErrorKind,
        mailbox: MailboxEffects<M>,
        send_cloned: bool,
    ) -> (outcome: (Poll<Result<Replied<T>, CallError>>, CallEffects<M>))
        ensures
            final(env).mailbox == old(env).mailbox,
            final(env).message == old(env).message,
            final(env).now == old(env).now,
            final(env).reply == (OneShot { closed: true, waker: None, ..old(env).reply }),
            outcome.0 matches Poll::Ready(result) && call_reports(
                result,
                CallVerdict::Failed(observed, failure_kind(kind)),
                old(env).mailbox@.actor,
            ),
            outcome.1.mailbox == mailbox,
            outcome.1.send_cloned == send_cloned,
            outcome.1.reply.wakers@ == retired(old(env).reply.waker),
            !outcome.1.reply.cloned,
            outcome.1.disposed == Some(message),
    {
        let reply = env.reply.close();
        let error = CallError {
            actor_id: env.mailbox.actor_id(),
            incarnation_observed: observed,
            kind: match kind {
                SendErrorKind::TimedOut => CallErrorKind::AcceptanceTimedOut,
                SendErrorKind::Terminated => CallErrorKind::Terminated,
                SendErrorKind::NotRunning => CallErrorKind::Terminated,
                SendErrorKind::Full => CallErrorKind::Terminated,
            },
        };
        (
            Poll::Ready(Err(error)),
            CallEffects { mailbox, send_cloned, reply, disposed: Some(message) },
        )
    }

    /// Polls the reply of an accepted call.
    fn poll_reply(
        env: &mut CallEnv<M, T>,
        incarnation: Incarnation,
        waker: WakerId,
        phase: DeadlinePhase,
        mailbox: MailboxEffects<M>,
        send_cloned: bool,
    ) -> (outcome: (Poll<Result<Replied<T>, CallError>>, CallEffects<M>))
        requires
            !(old(env).reply.stage is Spent),
        ensures
            final(env).mailbox == old(env).mailbox,
            final(env).message == old(env).message,
            final(env).now == old(env).now,
            ({
                let step = old(env).reply.reply_step(waker, phase);
                &&& final(env).reply == step.channel
                &&& outcome.1.mailbox == mailbox
                &&& outcome.1.send_cloned == send_cloned
                &&& outcome.1.reply.cloned == step.cloned
                &&& outcome.1.reply.wakers@ == step.wakers
                &&& outcome.1.disposed is None
                &&& match outcome.0 {
                    Poll::Pending => reply_verdict(step.result, incarnation) is None,
                    Poll::Ready(result) => reply_verdict(
                        step.result,
                        incarnation,
                    ) matches Some(verdict) && call_reports(
                        result,
                        verdict,
                        old(env).mailbox@.actor,
                    ),
                }
            }),
            outcome.0 is Pending ==> !(final(env).reply.stage is Spent),
    {
        let (polled, reply) = env.reply.poll_reply(waker, phase);
        let result = match polled {
            Poll::Ready(ReplyPoll::Value(value)) => Poll::Ready(
                Ok(Replied { value, incarnation }),
            ),
            Poll::Ready(ReplyPoll::SenderClosed) => Poll::Ready(
                Err(
                    CallError {
                        actor_id: env.mailbox.actor_id(),
                        incarnation_observed: Some(incarnation),
                        kind: CallErrorKind::ReplyDropped,
                    },
                ),
            ),
            Poll::Ready(ReplyPoll::TimedOut) => Poll::Ready(
                Err(
                    CallError {
                        actor_id: env.mailbox.actor_id(),
                        incarnation_observed: Some(incarnation),
                        kind: CallErrorKind::ResponseTimedOut,
                    },
                ),
            ),
            Poll::Pending => Poll::Pending,
        };
        (result, CallEffects { mailbox, send_cloned, reply, disposed: None })
    }

    /// Ends a call that submitted nothing.
    fn unsubmitted(env: &CallEnv<M, T>, disposed: Option<M>) -> (outcome: (
        Result<Replied<T>, CallError>,
        CallEffects<M>,
    ))
        ensures
            call_reports(
                outcome.0,
                CallVerdict::Failed(
                    env.mailbox@.phase.observed(),
                    CallErrorKind::AcceptanceTimedOut,
                ),
                env.mailbox@.actor,
            ),
            outcome.1.mailbox@ == no_effects::<M>(),
            !outcome.1.send_cloned,
            !outcome.1.reply.cloned,
            outcome.1.reply.wakers@ == Seq::<WakerEffect>::empty(),
            outcome.1.disposed == disposed,
    {
        let error = CallError {
            actor_id: env.mailbox.actor_id(),
            incarnation_observed: env.mailbox.current_observation(),
            kind: CallErrorKind::AcceptanceTimedOut,
        };
        (
            Err(error),
            CallEffects {
                mailbox: MailboxEffects::new(),
                send_cloned: false,
                reply: ReplyEffects { cloned: false, wakers: Vec::new() },
                disposed,
            },
        )
    }
}

impl<M, T> DeadlineOperation for CallOperation<M, T> {
    type Env = CallEnv<M, T>;

    type Output = Result<Replied<T>, CallError>;

    type Effects = CallEffects<M>;

    open spec fn pollable(self, env: CallEnv<M, T>) -> bool {
        &&& env.mailbox@.wf()
        &&& match self.stage {
            CallStage::Unstarted => env.message is Some && !(env.reply.stage is Spent)
                && env.mailbox@.accepted < u64::MAX && env.mailbox@.last_id < u64::MAX,
            CallStage::Sending(send) => send.pollable_in(env.mailbox@) && !(
            env.reply.stage is Spent),
            CallStage::Accepted(_) => !(env.reply.stage is Spent),
            CallStage::Done => false,
        }
    }

    open spec fn endable(self, env: CallEnv<M, T>) -> bool {
        true
    }

    open spec fn pass(
        self,
        env: CallEnv<M, T>,
        waker: WakerId,
        budget: Deadline,
        phase: DeadlinePhase,
        after: CallOperation<M, T>,
        env_after: CallEnv<M, T>,
        result: Poll<Result<Replied<T>, CallError>>,
        effects: CallEffects<M>,
    ) -> bool {
        let step = self.step(env, waker, budget, phase);
        &&& after.stands_at(step)
        &&& env_after.mailbox@ == step.mailbox
        &&& env_after.mailbox@.wf()
        &&& env_after.reply == step.reply
        &&& env_after.message == if self.stage is Unstarted && phase is InitialAttempt {
            None
        } else {
            env.message
        }
        &&& env_after.now == env.now
        &&& effects.mailbox@ == step.effects
        &&& effects.send_cloned == step.send_cloned
        &&& effects.reply.cloned == step.reply_cloned
        &&& effects.reply.wakers@ == step.reply_wakers
        &&& effects.disposed == step.disposed
        &&& match result {
            Poll::Pending => step.verdict is None,
            Poll::Ready(reported) => step.verdict matches Some(verdict) && call_reports(
                reported,
                verdict,
                env.mailbox@.actor,
            ),
        }
    }

    open spec fn cut(
        self,
        env: CallEnv<M, T>,
        after: CallOperation<M, T>,
        env_after: CallEnv<M, T>,
        output: Result<Replied<T>, CallError>,
        effects: CallEffects<M>,
    ) -> bool {
        &&& after == self
        &&& env_after == env
        &&& call_reports(
            output,
            CallVerdict::Failed(env.mailbox@.phase.observed(), CallErrorKind::AcceptanceTimedOut),
            env.mailbox@.actor,
        )
        &&& effects.mailbox@ == no_effects::<M>()
        &&& !effects.send_cloned
        &&& !effects.reply.cloned
        &&& effects.reply.wakers@ == Seq::<WakerEffect>::empty()
        &&& effects.disposed is None
    }

    fn poll_deadlined(
        &mut self,
        env: &mut CallEnv<M, T>,
        waker: WakerId,
        budget: Deadline,
        phase: DeadlinePhase,
    ) -> (outcome: (Poll<Result<Replied<T>, CallError>>, CallEffects<M>)) {
        let mut stage = CallStage::Done;
        core::mem::swap(&mut self.stage, &mut stage);
        let mut send = match stage {
            CallStage::Unstarted => {
                if let DeadlinePhase::TimeoutArbitration = phase {
                    let (ended, effects) = Self::unsubmitted(env, None);
                    return (Poll::Ready(ended), effects);
                }
                let message = env.message.take();
                if budget.is_overdue(env.now) {
                    let (ended, effects) = Self::unsubmitted(env, message);
                    return (Poll::Ready(ended), effects);
                }
                SendFuture::new(message.unwrap())
            },
            CallStage::Sending(send) => send,
            CallStage::Accepted(incarnation) => {
                self.stage = CallStage::Accepted(incarnation);
                return Self::poll_reply(
                    env,
                    incarnation,
                    waker,
                    phase,
                    MailboxEffects::new(),
                    false,
                );
            },
            CallStage::Done => vstd::pervasive::unreached(),
        };
        let polled = send.poll(&mut env.mailbox, waker);
        let mut owed = polled.effects;
        let cloned = polled.cloned;
        match polled.result {
            Poll::Ready(Ok(incarnation)) => {
                self.stage = CallStage::Accepted(incarnation);
                Self::poll_reply(env, incarnation, waker, phase, owed, cloned)
            },
            Poll::Ready(Err(error)) => {
                Self::fail_send(
                    env,
                    error.incarnation_observed,
                    error.message,
                    error.kind,
                    owed,
                    cloned,
                )
            },
            Poll::Pending => match phase {
                DeadlinePhase::InitialAttempt => {
                    self.stage = CallStage::Sending(send);
                    (
                        Poll::Pending,
                        CallEffects {
                            mailbox: owed,
                            send_cloned: cloned,
                            reply: ReplyEffects { cloned: false, wakers: Vec::new() },
                            disposed: None,
                        },
                    )
                },
                DeadlinePhase::TimeoutArbitration => {
                    let (result, mut wakers) = send.withdraw_send(&mut env.mailbox);
                    owed.wakers.append(&mut wakers);
                    match result {
                        Ok(incarnation) => {
                            self.stage = CallStage::Accepted(incarnation);
                            Self::poll_reply(env, incarnation, waker, phase, owed, cloned)
                        },
                        Err(error) => Self::fail_send(
                            env,
                            error.incarnation_observed,
                            error.message,
                            error.kind,
                            owed,
                            cloned,
                        ),
                    }
                },
            },
        }
    }

    fn short_circuit(&mut self, env: &mut CallEnv<M, T>) -> (outcome: (
        Result<Replied<T>, CallError>,
        CallEffects<M>,
    )) {
        Self::unsubmitted(env, None)
    }
}

/// A call under one deadline.
#[derive(Debug)]
pub struct CallFuture<M, T> {
    /// The call and its deadline.
    pub deadlined: Deadlined<CallOperation<M, T>>,
}

impl<M, T> CallFuture<M, T> {
    /// A call that gives up once `budget` has passed.
    pub fn new(budget: DeadlineBudget) -> (call: CallFuture<M, T>)
        ensures
            call.deadlined.wf(),
            !call.deadlined.started,
            call.deadlined.phase is InitialAttempt,
            call.deadlined.budget_width == budget,
            call.deadlined.operation.stage is Unstarted,
    {
        CallFuture { deadlined: Deadlined::no_attempt(CallOperation::new(), budget) }
    }

    /// Whether the next poll needs the request: it is not built yet and there
    /// is time to send it.
    pub fn wants_message(&self) -> (wanted: bool)
        ensures
            wanted == (self.deadlined.operation.stage is Unstarted
                && self.deadlined.budget_width.width@ != 0),
    {
        matches!(self.deadlined.operation.stage, CallStage::Unstarted)
            && !self.deadlined.budget_width.is_zero()
    }
}

/// A call that times out before acceptance never reaches an actor, and one
/// that fails after acceptance names the accepting incarnation.
pub proof fn law_a_call_tells_unaccepted_from_unknown<M, T>(
    operation: CallOperation<M, T>,
    env: CallEnv<M, T>,
    waker: WakerId,
    budget: Deadline,
    phase: DeadlinePhase,
)
    requires
        operation.pollable(env),
    ensures
        ({
            let step = operation.step(env, waker, budget, phase);
            &&& step.verdict matches Some(CallVerdict::Failed(_, kind)) ==> {
                &&& kind == CallErrorKind::AcceptanceTimedOut || kind == CallErrorKind::Terminated
                    <==> step.accepted is None
                &&& step.accepted is Some ==> step.verdict->Some_0->Failed_0 == step.accepted
            }
            &&& step.accepted is Some ==> step.disposed is None
            &&& step.verdict is None ==> step.disposed is None
        }),
{
}

} // verus!
