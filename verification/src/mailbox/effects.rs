//! What a mailbox transition owes its surroundings once no lock is held.

use crate::mailbox::model::{no_effects, EffectsModel};
use crate::mailbox::operation::WakerEffect;
use crate::mailbox::state::Envelope;
use std::collections::VecDeque;
use vstd::prelude::*;

verus! {

/// Effects queued by one transition; flushing runs them.
#[derive(Debug)]
pub struct MailboxEffects<M> {
    /// Whether watchers of the mailbox are to be told of a change.
    pub pulse: bool,
    /// Messages a newer one replaced.
    pub displaced: Vec<Envelope<M>>,
    /// Whether the displaced messages go to the disposal lane.
    pub isolate_displaced: bool,
    /// Wakers to run or destroy, in order.
    pub wakers: Vec<WakerEffect>,
}

/// One step of a flush.
#[derive(Debug)]
pub enum FlushStep<M> {
    /// Tell watchers of the mailbox that it changed.
    Pulse,
    /// Hand these messages to the disposal lane.
    Dispose(Vec<Envelope<M>>),
    /// Run or destroy these wakers in order.
    Wakers(Vec<WakerEffect>),
    /// Destroy these messages here, each on its own.
    DropInline(Vec<Envelope<M>>),
}

/// One step of a flush, by content.
pub enum FlushStepModel<M> {
    /// Tell watchers of the mailbox that it changed.
    Pulse,
    /// Hand these messages to the disposal lane.
    Dispose(Seq<Envelope<M>>),
    /// Run or destroy these wakers in order.
    Wakers(Seq<WakerEffect>),
    /// Destroy these messages here, each on its own.
    DropInline(Seq<Envelope<M>>),
}

impl<M> FlushStep<M> {
    /// The step by content.
    pub open spec fn view(&self) -> FlushStepModel<M> {
        match self {
            FlushStep::Pulse => FlushStepModel::Pulse,
            FlushStep::Dispose(messages) => FlushStepModel::Dispose(messages@),
            FlushStep::Wakers(wakers) => FlushStepModel::Wakers(wakers@),
            FlushStep::DropInline(messages) => FlushStepModel::DropInline(messages@),
        }
    }
}

impl<M> EffectsModel<M> {
    /// Whether there is nothing to do. Which way displaced messages would go is
    /// no work by itself.
    pub open spec fn is_empty(self) -> bool {
        !self.pulse && self.displaced.len() == 0 && self.wakers.len() == 0
    }

    /// The flush: watchers are told first, isolated messages are handed to the
    /// disposal lane before any sender wakes, and messages destroyed here come
    /// last.
    pub open spec fn flush_steps(self) -> Seq<FlushStepModel<M>> {
        (if self.pulse {
            seq![FlushStepModel::Pulse]
        } else {
            seq![]
        }) + (if self.isolate_displaced && self.displaced.len() > 0 {
            seq![FlushStepModel::Dispose(self.displaced)]
        } else {
            seq![]
        }) + (if self.wakers.len() > 0 {
            seq![FlushStepModel::Wakers(self.wakers)]
        } else {
            seq![]
        }) + (if !self.isolate_displaced && self.displaced.len() > 0 {
            seq![FlushStepModel::DropInline(self.displaced)]
        } else {
            seq![]
        })
    }
}

/// The steps by content.
pub open spec fn step_models<M>(steps: Seq<FlushStep<M>>) -> Seq<FlushStepModel<M>> {
    Seq::new(steps.len(), |i: int| steps[i]@)
}

impl<M> MailboxEffects<M> {
    /// The effects by content.
    pub open spec fn view(&self) -> EffectsModel<M> {
        EffectsModel {
            pulse: self.pulse,
            displaced: self.displaced@,
            isolate_displaced: self.isolate_displaced,
            wakers: self.wakers@,
        }
    }

    /// No effects.
    pub fn new() -> (effects: MailboxEffects<M>)
        ensures
            effects@ == no_effects::<M>(),
    {
        MailboxEffects {
            pulse: false,
            displaced: Vec::new(),
            isolate_displaced: false,
            wakers: Vec::new(),
        }
    }

    /// Whether there is nothing to flush.
    pub fn is_empty(&self) -> (empty: bool)
        ensures
            empty == self@.is_empty(),
    {
        !self.pulse && self.displaced.len() == 0 && self.wakers.len() == 0
    }

    /// Queues a change notification.
    pub fn pulse(&mut self)
        ensures
            final(self)@ == (EffectsModel { pulse: true, ..old(self)@ }),
    {
        self.pulse = true;
    }

    /// Sends displaced messages to the disposal lane.
    pub fn isolate_displaced(&mut self)
        ensures
            final(self)@ == (EffectsModel { isolate_displaced: true, ..old(self)@ }),
    {
        self.isolate_displaced = true;
    }

    /// Lays out the flush as steps to perform in order.
    pub fn flush(self) -> (steps: Vec<FlushStep<M>>)
        ensures
            step_models(steps@) =~= self@.flush_steps(),
    {
        let mut steps: Vec<FlushStep<M>> = Vec::new();
        if self.pulse {
            steps.push(FlushStep::Pulse);
        }
        let isolate = self.isolate_displaced;
        let displaced = self.displaced;
        let wakers = self.wakers;
        let any_displaced = displaced.len() > 0;
        if isolate && any_displaced {
            steps.push(FlushStep::Dispose(displaced));
            if wakers.len() > 0 {
                steps.push(FlushStep::Wakers(wakers));
            }
        } else {
            if wakers.len() > 0 {
                steps.push(FlushStep::Wakers(wakers));
            }
            if any_displaced {
                steps.push(FlushStep::DropInline(displaced));
            }
        }
        steps
    }
}

/// Unread messages detached from a mailbox, for their owner to destroy.
#[derive(Debug)]
pub struct MailboxPayload<M> {
    /// The unread queue, oldest first.
    pub queue: VecDeque<Envelope<M>>,
    /// The unread latest value.
    pub latest: Option<Envelope<M>>,
}

} // verus!
