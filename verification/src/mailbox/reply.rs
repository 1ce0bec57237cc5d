//! Replies: a one-shot channel, its capabilities and its receive deadline.

use crate::mailbox::deadline::{DeadlineOperation, DeadlinePhase, Deadlined};
use crate::mailbox::operation::{WakerEffect, WakerId};
use crate::mailbox::ReplyError;
use crate::poll::Poll;
use crate::time::{Deadline, DeadlineBudget};
use core::marker::PhantomData;
use vstd::prelude::*;

verus! {

/// What a one-shot channel holds.
#[derive(Debug)]
pub enum OneShotStage<T> {
    /// Nothing was sent.
    Empty,
    /// A send has won but not published its value yet.
    Sending,
    /// A value waits to be received.
    Full(T),
    /// The sender is gone without sending.
    SenderGone,
    /// The value was received.
    Spent,
}

/// A channel for one value, from one sender to one receiver.
#[derive(Debug)]
pub struct OneShot<T> {
    /// What the channel holds.
    pub stage: OneShotStage<T>,
    /// Whether the receiver has closed it: no send can begin any more.
    pub closed: bool,
    /// The receiver's registered waker.
    pub waker: Option<WakerId>,
}

/// What closing the channel while polling it finds.
#[derive(Debug)]
pub enum OneShotClose<T> {
    /// A value had arrived.
    Value(T),
    /// The sender was gone.
    SenderClosed,
    /// Nothing had arrived, and nothing will.
    Empty,
    /// A send has won and will publish its value.
    Pending,
}

/// What polling for a reply came to.
#[derive(Debug)]
pub enum ReplyPoll<T> {
    /// The reply.
    Value(T),
    /// The reply capability was dropped unanswered.
    SenderClosed,
    /// The budget ran out.
    TimedOut,
}

/// What one operation on the channel does to wakers.
#[derive(Debug)]
pub struct ReplyEffects {
    /// Whether the caller's waker is cloned.
    pub cloned: bool,
    /// Wakers to run or destroy, in order.
    pub wakers: Vec<WakerEffect>,
}

/// One operation on the channel, by content.
pub struct ReplyStep<T, R> {
    /// The channel afterwards.
    pub channel: OneShot<T>,
    /// What it reports.
    pub result: R,
    /// Whether the caller's waker is cloned.
    pub cloned: bool,
    /// Wakers to run or destroy, in order.
    pub wakers: Seq<WakerEffect>,
}

/// A registered waker that is destroyed in place.
pub open spec fn retired(waker: Option<WakerId>) -> Seq<WakerEffect> {
    match waker {
        Some(registered) => seq![WakerEffect::DropInline(registered)],
        None => seq![],
    }
}

/// A registered waker that is woken.
pub open spec fn woken(waker: Option<WakerId>) -> Seq<WakerEffect> {
    match waker {
        Some(registered) => seq![WakerEffect::Wake(registered)],
        None => seq![],
    }
}

impl<T> OneShot<T> {
    /// A fresh channel.
    pub fn new() -> (channel: OneShot<T>)
        ensures
            channel == Self::fresh(),
    {
        OneShot { stage: OneShotStage::Empty, closed: false, waker: None }
    }

    /// A fresh channel.
    pub open spec fn fresh() -> OneShot<T> {
        OneShot { stage: OneShotStage::Empty, closed: false, waker: None }
    }

    /// The channel after its sender sends `value`: a receiver that has closed
    /// it gets nothing.
    pub open spec fn after_send(self, value: T) -> OneShot<T> {
        if self.closed {
            OneShot { stage: OneShotStage::SenderGone, waker: None, ..self }
        } else {
            OneShot { stage: OneShotStage::Full(value), waker: None, ..self }
        }
    }

    /// Sends `value`; hands it back if the receiver has closed the channel.
    pub fn send(&mut self, value: T) -> (outcome: (Option<T>, ReplyEffects))
        requires
            old(self).stage is Empty,
        ensures
            *final(self) == old(self).after_send(value),
            outcome.0 == if old(self).closed {
                Some(value)
            } else {
                None
            },
            outcome.1.wakers@ == woken(old(self).waker),
            !outcome.1.cloned,
    {
        let mut wakers: Vec<WakerEffect> = Vec::new();
        if let Some(registered) = self.waker.take() {
            wakers.push(WakerEffect::Wake(registered));
        }
        let effects = ReplyEffects { cloned: false, wakers };
        if self.closed {
            self.stage = OneShotStage::SenderGone;
            (Some(value), effects)
        } else {
            self.stage = OneShotStage::Full(value);
            (None, effects)
        }
    }

    /// Begins a send that is published later; refused once the receiver has
    /// closed the channel.
    pub fn begin_send(&mut self) -> (begun: bool)
        requires
            old(self).stage is Empty,
        ensures
            begun == !old(self).closed,
            *final(self) == if begun {
                OneShot { stage: OneShotStage::Sending, ..*old(self) }
            } else {
                *old(self)
            },
    {
        if self.closed {
            false
        } else {
            self.stage = OneShotStage::Sending;
            true
        }
    }

    /// Publishes the value of a send that has begun, waking the receiver.
    pub fn publish(&mut self, value: T) -> (effects: ReplyEffects)
        requires
            old(self).stage is Sending,
        ensures
            *final(self) == (OneShot {
                stage: OneShotStage::Full(value),
                waker: None,
                ..*old(self)
            }),
            effects.wakers@ == woken(old(self).waker),
            !effects.cloned,
    {
        let mut wakers: Vec<WakerEffect> = Vec::new();
        if let Some(registered) = self.waker.take() {
            wakers.push(WakerEffect::Wake(registered));
        }
        self.stage = OneShotStage::Full(value);
        ReplyEffects { cloned: false, wakers }
    }

    /// Drops the sender without sending.
    pub fn drop_sender(&mut self) -> (effects: ReplyEffects)
        requires
            old(self).stage is Empty,
        ensures
            *final(self) == (OneShot { stage: OneShotStage::SenderGone, waker: None, ..*old(self) }),
            effects.wakers@ == woken(old(self).waker),
            !effects.cloned,
    {
        let mut wakers: Vec<WakerEffect> = Vec::new();
        if let Some(registered) = self.waker.take() {
            wakers.push(WakerEffect::Wake(registered));
        }
        self.stage = OneShotStage::SenderGone;
        ReplyEffects { cloned: false, wakers }
    }

    /// The channel waiting on behalf of `waker`.
    pub open spec fn waiting<R>(self, result: R, waker: WakerId) -> ReplyStep<T, R> {
        if self.waker == Some(waker) {
            ReplyStep { channel: self, result, cloned: false, wakers: seq![] }
        } else {
            ReplyStep {
                channel: OneShot { waker: Some(waker), ..self },
                result,
                cloned: true,
                wakers: retired(self.waker),
            }
        }
    }

    /// The channel done waiting, its receiver's waker destroyed.
    pub open spec fn settled<R>(self, stage: OneShotStage<T>, result: R) -> ReplyStep<T, R> {
        ReplyStep {
            channel: OneShot { stage, waker: None, ..self },
            result,
            cloned: false,
            wakers: retired(self.waker),
        }
    }

    /// Polling the channel for its value.
    pub open spec fn receive_step(self, waker: WakerId) -> ReplyStep<T, Poll<Option<T>>> {
        match self.stage {
            OneShotStage::Full(value) => self.settled(
                OneShotStage::Spent,
                Poll::Ready(Some(value)),
            ),
            OneShotStage::SenderGone => self.settled(OneShotStage::SenderGone, Poll::Ready(None)),
            _ => self.waiting(Poll::Pending, waker),
        }
    }

    /// Closing the channel while polling it.
    pub open spec fn close_step(self, waker: WakerId) -> ReplyStep<T, OneShotClose<T>> {
        let shut = OneShot { closed: true, ..self };
        match self.stage {
            OneShotStage::Full(value) => shut.settled(
                OneShotStage::Spent,
                OneShotClose::Value(value),
            ),
            OneShotStage::SenderGone => shut.settled(
                OneShotStage::SenderGone,
                OneShotClose::SenderClosed,
            ),
            OneShotStage::Sending => shut.waiting(OneShotClose::Pending, waker),
            _ => shut.settled(OneShotStage::Empty, OneShotClose::Empty),
        }
    }

    /// Destroys the registered waker in place.
    fn retire_reply_waker(&mut self) -> (effects: ReplyEffects)
        ensures
            *final(self) == (OneShot { waker: None, ..*old(self) }),
            effects.wakers@ == retired(old(self).waker),
            !effects.cloned,
    {
        let mut wakers: Vec<WakerEffect> = Vec::new();
        if let Some(registered) = self.waker.take() {
            wakers.push(WakerEffect::DropInline(registered));
        }
        ReplyEffects { cloned: false, wakers }
    }

    /// Registers `waker` unless it already is.
    fn register(&mut self, waker: WakerId) -> (effects: ReplyEffects)
        ensures
            *final(self) == old(self).waiting((), waker).channel,
            effects.cloned == old(self).waiting((), waker).cloned,
            effects.wakers@ == old(self).waiting((), waker).wakers,
    {
        if let Some(registered) = self.waker {
            if registered == waker {
                return ReplyEffects { cloned: false, wakers: Vec::new() };
            }
        }
        let mut effects = self.retire_reply_waker();
        self.waker = Some(waker);
        effects.cloned = true;
        effects
    }

    /// Polls for the value. The caller's waker is cloned only where the
    /// receiver has to wait, and destroyed before a result is handed out.
    pub fn poll_receive(&mut self, waker: WakerId) -> (outcome: (Poll<Option<T>>, ReplyEffects))
        requires
            !(old(self).stage is Spent),
        ensures
            ({
                let step = old(self).receive_step(waker);
                &&& *final(self) == step.channel
                &&& outcome.0 == step.result
                &&& outcome.1.cloned == step.cloned
                &&& outcome.1.wakers@ == step.wakers
            }),
    {
        let mut stage = OneShotStage::Spent;
        core::mem::swap(&mut self.stage, &mut stage);
        match stage {
            OneShotStage::Full(value) => {
                let effects = self.retire_reply_waker();
                (Poll::Ready(Some(value)), effects)
            },
            OneShotStage::SenderGone => {
                self.stage = OneShotStage::SenderGone;
                let effects = self.retire_reply_waker();
                (Poll::Ready(None), effects)
            },
            waiting => {
                self.stage = waiting;
                let effects = self.register(waker);
                (Poll::Pending, effects)
            },
        }
    }

    /// Closes the channel and polls it: a value that arrived concurrently
    /// still wins, and a send that has begun is waited for.
    pub fn close_and_poll_receive(&mut self, waker: WakerId) -> (outcome: (
        OneShotClose<T>,
        ReplyEffects,
    ))
        requires
            !(old(self).stage is Spent),
        ensures
            ({
                let step = old(self).close_step(waker);
                &&& *final(self) == step.channel
                &&& outcome.0 == step.result
                &&& outcome.1.cloned == step.cloned
                &&& outcome.1.wakers@ == step.wakers
            }),
    {
        self.closed = true;
        let mut stage = OneShotStage::Spent;
        core::mem::swap(&mut self.stage, &mut stage);
        match stage {
            OneShotStage::Full(value) => {
                let effects = self.retire_reply_waker();
                (OneShotClose::Value(value), effects)
            },
            OneShotStage::SenderGone => {
                self.stage = OneShotStage::SenderGone;
                let effects = self.retire_reply_waker();
                (OneShotClose::SenderClosed, effects)
            },
            OneShotStage::Sending => {
                self.stage = OneShotStage::Sending;
                let effects = self.register(waker);
                (OneShotClose::Pending, effects)
            },
            OneShotStage::Empty => {
                self.stage = OneShotStage::Empty;
                let effects = self.retire_reply_waker();
                (OneShotClose::Empty, effects)
            },
            OneShotStage::Spent => vstd::pervasive::unreached(),
        }
    }

    /// Closes the channel to sends that have not begun.
    pub fn close(&mut self) -> (effects: ReplyEffects)
        ensures
            *final(self) == (OneShot { closed: true, waker: None, ..*old(self) }),
            effects.wakers@ == retired(old(self).waker),
            !effects.cloned,
    {
        self.closed = true;
        self.retire_reply_waker()
    }

    /// Drops the receiver: an unclaimed value is recovered for the disposal
    /// lane before the waker is destroyed.
    pub fn drop_receiver(&mut self) -> (outcome: (Option<T>, ReplyEffects))
        ensures
            outcome.0 == match old(self).stage {
                OneShotStage::Full(value) => Some(value),
                _ => None,
            },
            *final(self) == (OneShot {
                stage: if old(self).stage is Full {
                    OneShotStage::Spent
                } else {
                    old(self).stage
                },
                closed: true,
                waker: None,
            }),
            outcome.1.wakers@ == retired(old(self).waker),
            !outcome.1.cloned,
    {
        self.closed = true;
        let mut stage = OneShotStage::Spent;
        core::mem::swap(&mut self.stage, &mut stage);
        let value = match stage {
            OneShotStage::Full(value) => Some(value),
            other => {
                self.stage = other;
                None
            },
        };
        let effects = self.retire_reply_waker();
        (value, effects)
    }

    /// Polling for a reply in one of the two passes of its deadline.
    pub open spec fn reply_step(self, waker: WakerId, phase: DeadlinePhase) -> ReplyStep<
        T,
        Poll<ReplyPoll<T>>,
    > {
        let first = self.receive_step(waker);
        match first.result {
            Poll::Ready(Some(value)) => ReplyStep {
                channel: first.channel,
                result: Poll::Ready(ReplyPoll::Value(value)),
                cloned: first.cloned,
                wakers: first.wakers,
            },
            Poll::Ready(None) => ReplyStep {
                channel: first.channel,
                result: Poll::Ready(ReplyPoll::SenderClosed),
                cloned: first.cloned,
                wakers: first.wakers,
            },
            Poll::Pending => if phase is InitialAttempt {
                ReplyStep {
                    channel: first.channel,
                    result: Poll::Pending,
                    cloned: first.cloned,
                    wakers: first.wakers,
                }
            } else {
                let second = first.channel.close_step(waker);
                ReplyStep {
                    channel: second.channel,
                    result: match second.result {
                        OneShotClose::Value(value) => Poll::Ready(ReplyPoll::Value(value)),
                        OneShotClose::SenderClosed => Poll::Ready(ReplyPoll::SenderClosed),
                        OneShotClose::Empty => Poll::Ready(ReplyPoll::TimedOut),
                        OneShotClose::Pending => Poll::Pending,
                    },
                    cloned: first.cloned || second.cloned,
                    wakers: first.wakers + second.wakers,
                }
            },
        }
    }

    /// Polls for a reply. After the timer fired the channel is closed, and only
    /// an empty one reports the timeout.
    pub fn poll_reply(&mut self, waker: WakerId, phase: DeadlinePhase) -> (outcome: (
        Poll<ReplyPoll<T>>,
        ReplyEffects,
    ))
        requires
            !(old(self).stage is Spent),
        ensures
            ({
                let step = old(self).reply_step(waker, phase);
                &&& *final(self) == step.channel
                &&& outcome.0 == step.result
                &&& outcome.1.cloned == step.cloned
                &&& outcome.1.wakers@ == step.wakers
            }),
            outcome.0 is Pending ==> !(final(self).stage is Spent),
    {
        let (first, mut effects) = self.poll_receive(waker);
        match first {
            Poll::Ready(Some(value)) => (Poll::Ready(ReplyPoll::Value(value)), effects),
            Poll::Ready(None) => (Poll::Ready(ReplyPoll::SenderClosed), effects),
            Poll::Pending => match phase {
                DeadlinePhase::InitialAttempt => (Poll::Pending, effects),
                DeadlinePhase::TimeoutArbitration => {
                    let (second, mut more) = self.close_and_poll_receive(waker);
                    effects.cloned = effects.cloned || more.cloned;
                    effects.wakers.append(&mut more.wakers);
                    match second {
                        OneShotClose::Value(value) => (
                            Poll::Ready(ReplyPoll::Value(value)),
                            effects,
                        ),
                        OneShotClose::SenderClosed => (
                            Poll::Ready(ReplyPoll::SenderClosed),
                            effects,
                        ),
                        OneShotClose::Empty => (Poll::Ready(ReplyPoll::TimedOut), effects),
                        OneShotClose::Pending => (Poll::Pending, effects),
                    }
                },
            },
        }
    }
}

/// A capability to reply once. Dropping it unanswered is an answer too: the
/// receiver learns that no reply will come.
#[derive(Debug)]
pub struct Reply<T> {
    answered: bool,
    marker: PhantomData<T>,
}

/// The right to receive one reply.
#[derive(Debug)]
pub struct ReplyReceiver<T> {
    marker: PhantomData<T>,
}

impl<T> Reply<T> {
    /// Sending consumes the capability, so one that exists is unanswered.
    #[verifier::type_invariant]
    spec fn unanswered(self) -> bool {
        !self.answered
    }

    /// A fresh channel and its two capabilities.
    pub fn channel() -> (made: (Reply<T>, ReplyReceiver<T>, OneShot<T>))
        ensures
            made.2 == OneShot::<T>::fresh(),
    {
        (
            Reply { answered: false, marker: PhantomData },
            ReplyReceiver { marker: PhantomData },
            OneShot::new(),
        )
    }

    /// Consumes the capability and delivers `value`, or hands it back for the
    /// disposal lane where the receiver is gone.
    pub fn send(self, channel: &mut OneShot<T>, value: T) -> (outcome: (Option<T>, ReplyEffects))
        requires
            old(channel).stage is Empty,
        ensures
            *final(channel) == old(channel).after_send(value),
            outcome.0 == if old(channel).closed {
                Some(value)
            } else {
                None
            },
            outcome.1.wakers@ == woken(old(channel).waker),
            !outcome.1.cloned,
    {
        channel.send(value)
    }

    /// Drops the capability unanswered.
    pub fn abandon(self, channel: &mut OneShot<T>) -> (effects: ReplyEffects)
        requires
            old(channel).stage is Empty,
        ensures
            *final(channel) == (OneShot {
                stage: OneShotStage::SenderGone,
                waker: None,
                ..*old(channel)
            }),
            effects.wakers@ == woken(old(channel).waker),
            !effects.cloned,
    {
        channel.drop_sender()
    }
}

/// Receiving a reply, as an operation a deadline can end.
#[derive(Debug)]
pub struct ReplyOperation<T> {
    marker: PhantomData<T>,
}

/// What a receive reports for what its channel came to.
pub open spec fn reply_output<T>(polled: ReplyPoll<T>) -> Result<T, ReplyError> {
    match polled {
        ReplyPoll::Value(value) => Ok(value),
        ReplyPoll::SenderClosed => Err(ReplyError::Dropped),
        ReplyPoll::TimedOut => Err(ReplyError::Timeout),
    }
}

impl<T> DeadlineOperation for ReplyOperation<T> {
    type Env = OneShot<T>;

    type Output = Result<T, ReplyError>;

    type Effects = ReplyEffects;

    open spec fn pollable(self, env: OneShot<T>) -> bool {
        !(env.stage is Spent)
    }

    open spec fn endable(self, env: OneShot<T>) -> bool {
        true
    }

    open spec fn pass(
        self,
        env: OneShot<T>,
        waker: WakerId,
        budget: Deadline,
        phase: DeadlinePhase,
        after: ReplyOperation<T>,
        env_after: OneShot<T>,
        result: Poll<Result<T, ReplyError>>,
        effects: ReplyEffects,
    ) -> bool {
        let step = env.reply_step(waker, phase);
        &&& after == self
        &&& env_after == step.channel
        &&& effects.cloned == step.cloned
        &&& effects.wakers@ == step.wakers
        &&& result == match step.result {
            Poll::Ready(polled) => Poll::Ready(reply_output(polled)),
            Poll::Pending => Poll::Pending,
        }
    }

    open spec fn cut(
        self,
        env: OneShot<T>,
        after: ReplyOperation<T>,
        env_after: OneShot<T>,
        output: Result<T, ReplyError>,
        effects: ReplyEffects,
    ) -> bool {
        &&& after == self
        &&& env_after == (OneShot { closed: true, waker: None, ..env })
        &&& effects.wakers@ == retired(env.waker)
        &&& !effects.cloned
        &&& output == Err::<T, ReplyError>(ReplyError::Timeout)
    }

    fn poll_deadlined(
        &mut self,
        env: &mut OneShot<T>,
        waker: WakerId,
        budget: Deadline,
        phase: DeadlinePhase,
    ) -> (outcome: (Poll<Result<T, ReplyError>>, ReplyEffects)) {
        let (polled, effects) = env.poll_reply(waker, phase);
        let result = match polled {
            Poll::Ready(ReplyPoll::Value(value)) => Poll::Ready(Ok(value)),
            Poll::Ready(ReplyPoll::SenderClosed) => Poll::Ready(Err(ReplyError::Dropped)),
            Poll::Ready(ReplyPoll::TimedOut) => Poll::Ready(Err(ReplyError::Timeout)),
            Poll::Pending => Poll::Pending,
        };
        (result, effects)
    }

    fn short_circuit(&mut self, env: &mut OneShot<T>) -> (outcome: (
        Result<T, ReplyError>,
        ReplyEffects,
    )) {
        let effects = env.close();
        (Err(ReplyError::Timeout), effects)
    }
}

/// A receive under one response deadline.
#[derive(Debug)]
pub struct ReplyReceive<T> {
    /// The receive and its deadline.
    pub deadlined: Deadlined<ReplyOperation<T>>,
}

impl<T> ReplyReceiver<T> {
    /// Waits for the reply within `budget`. A zero budget does not look at a
    /// reply that has already arrived: it closes the channel and times out.
    pub fn recv(self, budget: DeadlineBudget) -> (receive: ReplyReceive<T>)
        ensures
            receive.deadlined.wf(),
            !receive.deadlined.started,
            receive.deadlined.phase is InitialAttempt,
            receive.deadlined.budget_width == budget,
    {
        ReplyReceive {
            deadlined: Deadlined::no_attempt(
                ReplyOperation { marker: PhantomData },
                budget,
            ),
        }
    }
}

/// A reply that was sent is received, unless the receiver had closed the
/// channel before; it then comes back to its sender.
pub proof fn law_a_sent_reply_is_received_or_returned<T>(
    channel: OneShot<T>,
    value: T,
    waker: WakerId,
    phase: DeadlinePhase,
)
    requires
        channel.stage is Empty,
    ensures
        !channel.closed ==> channel.after_send(value).reply_step(waker, phase).result == Poll::Ready(
            ReplyPoll::Value(value),
        ),
        channel.closed ==> channel.after_send(value).stage is SenderGone,
{
}

/// The end of the budget never discards a reply: the timeout is reported only
/// where no send had begun, and none can begin afterwards.
pub proof fn law_a_timeout_never_discards_a_reply<T>(
    channel: OneShot<T>,
    waker: WakerId,
    phase: DeadlinePhase,
)
    requires
        !(channel.stage is Spent),
    ensures
        channel.reply_step(waker, phase).result == Poll::<ReplyPoll<T>>::Ready(ReplyPoll::TimedOut)
            ==> phase is TimeoutArbitration && channel.stage is Empty && channel.reply_step(
            waker,
            phase,
        ).channel.closed,
        channel.stage is Sending ==> channel.reply_step(waker, phase).result is Pending,
        channel.stage matches OneShotStage::Full(value) ==> channel.reply_step(
            waker,
            phase,
        ).result == Poll::Ready(ReplyPoll::Value(value)),
{
}

/// A result is handed out with no waker left registered.
pub proof fn law_a_result_retires_the_waker<T>(
    channel: OneShot<T>,
    waker: WakerId,
    phase: DeadlinePhase,
)
    requires
        !(channel.stage is Spent),
    ensures
        channel.reply_step(waker, phase).result is Ready ==> channel.reply_step(
            waker,
            phase,
        ).channel.waker is None,
        channel.reply_step(waker, phase).result is Pending ==> channel.reply_step(
            waker,
            phase,
        ).channel.waker == Some(waker),
{
}

} // verus!
