//! What one incarnation owns: queued continuations, offload completions,
//! timers and offloads, and how they leave it.

use crate::raw::disposal::{first_of, PanicPayload, PanicSlot};
use crate::raw::latch::{LatchId, LatchTable};
use crate::raw::offload::{CancelStep, OffloadResource};
use crate::raw::select::{BatchModel, ReadyBatch};
use crate::raw::timers::{
    garbage_of_all, lemma_store_is_listed, Armed, ArmingOrder, Garbage, TimerEntry, TimerModel,
    TimerStore,
};
use std::collections::VecDeque;
use vstd::prelude::*;

verus! {

/// A finished offload's completion: what builds its message, unless the
/// offload was cancelled meanwhile.
#[derive(Debug)]
pub struct QueuedEvent<C> {
    /// Fires when cancellation is requested.
    pub cancellation: LatchId,
    /// Builds the message.
    pub make_message: C,
}

/// One step of destroying what an incarnation owns.
#[derive(Debug)]
pub enum Cleanup<M, C, W> {
    /// A step of cancelling an offload.
    Offload(CancelStep<W>),
    /// A continuation nobody will receive.
    Continuation(M),
    /// A timer's key or message.
    Timer(Garbage<M>),
    /// A completion nobody will receive.
    Completion(QueuedEvent<C>),
}

/// A queue of the actor's own values. Whatever is drained from it is destroyed
/// behind the incarnation's containment boundary.
#[derive(Debug)]
pub struct DisposingQueue<T> {
    queue: VecDeque<T>,
}

impl<T> DisposingQueue<T> {
    /// The values, oldest first.
    pub closed spec fn view(&self) -> Seq<T> {
        self.queue@
    }

    /// An empty queue.
    pub fn new() -> (queue: DisposingQueue<T>)
        ensures
            queue@ == Seq::<T>::empty(),
    {
        DisposingQueue { queue: VecDeque::new() }
    }

    /// How many values wait.
    pub fn len(&self) -> (count: usize)
        ensures
            count == self@.len(),
    {
        self.queue.len()
    }

    /// Whether none waits.
    pub fn is_empty(&self) -> (empty: bool)
        ensures
            empty == (self@.len() == 0),
    {
        self.queue.len() == 0
    }

    /// Adds the newest value.
    pub fn push_back(&mut self, value: T)
        ensures
            final(self)@ == old(self)@.push(value),
    {
        self.queue.push_back(value);
    }

    /// Takes the oldest value.
    pub fn pop_front(&mut self) -> (value: Option<T>)
        ensures
            old(self)@.len() == 0 ==> value is None && final(self)@ == old(self)@,
            old(self)@.len() > 0 ==> value == Some(old(self)@[0]) && final(self)@ == old(
                self,
            )@.skip(1),
    {
        let value = self.queue.pop_front();
        proof {
            if old(self)@.len() > 0 {
                assert(self@ =~= old(self)@.skip(1));
            }
        }
        value
    }

    /// Moves every value into a new queue.
    pub fn take(&mut self) -> (taken: DisposingQueue<T>)
        ensures
            taken@ == old(self)@,
            final(self)@ == Seq::<T>::empty(),
    {
        let mut queue: VecDeque<T> = VecDeque::new();
        core::mem::swap(&mut queue, &mut self.queue);
        DisposingQueue { queue }
    }

    /// Drains every value, oldest first, to be destroyed.
    pub fn clear(&mut self) -> (drained: Vec<T>)
        ensures
            drained@ == old(self)@,
            final(self)@ == Seq::<T>::empty(),
    {
        let mut drained: Vec<T> = Vec::new();
        loop
            invariant
                drained@ + self@ == old(self)@,
            ensures
                drained@ == old(self)@,
                self@ == Seq::<T>::empty(),
            decreases self@.len(),
        {
            let ghost before = self@;
            let ghost done = drained@;
            match self.pop_front() {
                Some(value) => {
                    drained.push(value);
                    proof {
                        assert(drained@ + self@ =~= done + before);
                    }
                },
                None => {
                    proof {
                        assert(drained@ + self@ =~= drained@);
                        assert(self@ =~= Seq::<T>::empty());
                    }
                    break ;
                },
            }
        }
        drained
    }
}

/// Completed offloads in the order they finished. The queue has no bound of
/// its own: each entry comes from work the incarnation itself started, one per
/// offload.
#[derive(Debug)]
pub struct EventQueue<C> {
    /// The completions, oldest first.
    pub queue: DisposingQueue<QueuedEvent<C>>,
    /// Whether the incarnation is to be told of an arrival.
    pub pulsed: bool,
}

impl<C> EventQueue<C> {
    /// The completions, oldest first.
    pub open spec fn view(&self) -> Seq<QueuedEvent<C>> {
        self.queue@
    }

    /// An empty queue.
    pub fn new() -> (events: EventQueue<C>)
        ensures
            events@ == Seq::<QueuedEvent<C>>::empty(),
            !events.pulsed,
    {
        EventQueue { queue: DisposingQueue::new(), pulsed: false }
    }

    /// Adds a completion and tells the incarnation.
    pub fn push(&mut self, event: QueuedEvent<C>)
        ensures
            final(self)@ == old(self)@.push(event),
            final(self).pulsed,
    {
        self.queue.push_back(event);
        self.pulsed = true;
    }

    /// Takes notice of what arrived; reports whether anything did.
    pub fn take_pulse(&mut self) -> (pulsed: bool)
        ensures
            pulsed == old(self).pulsed,
            !final(self).pulsed,
            final(self)@ == old(self)@,
    {
        let pulsed = self.pulsed;
        self.pulsed = false;
        pulsed
    }

    /// How many completions are queued: a cut that later arrivals are behind.
    pub fn watermark(&self) -> (count: usize)
        ensures
            count == self@.len(),
    {
        self.queue.len()
    }

    /// Takes the oldest completion.
    pub fn pop(&mut self) -> (event: Option<QueuedEvent<C>>)
        ensures
            final(self).pulsed == old(self).pulsed,
            old(self)@.len() == 0 ==> event is None && final(self)@ == old(self)@,
            old(self)@.len() > 0 ==> event == Some(old(self)@[0]) && final(self)@ == old(
                self,
            )@.skip(1),
    {
        self.queue.pop_front()
    }

    /// Takes the oldest completion before a cut that `remaining` of them
    /// precede.
    pub fn pop_through(&mut self, remaining: &mut usize) -> (event: Option<QueuedEvent<C>>)
        requires
            *old(remaining) <= old(self)@.len(),
        ensures
            final(self).pulsed == old(self).pulsed,
            *old(remaining) == 0 ==> event is None && final(self)@ == old(self)@,
            *old(remaining) == 0 ==> *final(remaining) == 0,
            *old(remaining) > 0 ==> event == Some(old(self)@[0]),
            *old(remaining) > 0 ==> final(self)@ == old(self)@.skip(1),
            *old(remaining) > 0 ==> *final(remaining) == *old(remaining) - 1,
    {
        if *remaining == 0 {
            None
        } else {
            let event = self.queue.pop_front();
            *remaining = *remaining - 1;
            event
        }
    }

    /// Drains every completion, oldest first, to be destroyed.
    pub fn clear(&mut self) -> (drained: Vec<QueuedEvent<C>>)
        ensures
            drained@ == old(self)@,
            final(self)@ == Seq::<QueuedEvent<C>>::empty(),
            final(self).pulsed == old(self).pulsed,
    {
        let mut taken = self.queue.take();
        taken.clear()
    }
}

/// Everything one incarnation owns.
#[verifier::ext_equal]
pub struct RawModel<M, C, W> {
    /// Whether the incarnation takes on new work.
    pub accepting: bool,
    /// Messages the actor queued for itself, oldest first.
    pub continuations: Seq<M>,
    /// Whether the last delivery was a continuation.
    pub last_delivery_was_continuation: bool,
    /// The timers.
    pub timers: TimerModel<M>,
    /// The selection in progress.
    pub batch: Option<BatchModel>,
    /// Completed offloads, oldest first.
    pub events: Seq<QueuedEvent<C>>,
    /// The first panic of the incarnation's cleanup.
    pub panic: Option<PanicPayload>,
    /// The offloads.
    pub offloads: Seq<OffloadResource<W>>,
}

/// The resource ledger of one incarnation.
#[derive(Debug)]
pub struct RawResources<M, C, W> {
    /// Whether the incarnation takes on new work.
    pub accepting: bool,
    /// Messages the actor queued for itself.
    pub continuations: DisposingQueue<M>,
    /// Whether the last delivery was a continuation. Two continuations never
    /// lead while other work is ready.
    pub last_delivery_was_continuation: bool,
    /// The timers.
    pub timers: TimerStore<M>,
    /// The selection in progress.
    pub ready_batch: Option<ReadyBatch>,
    /// Completed offloads.
    pub events: EventQueue<C>,
    /// The first panic of the incarnation's cleanup.
    pub panic: PanicSlot,
    /// The offloads.
    pub offloads: Vec<OffloadResource<W>>,
}

/// Whether every offload's latches exist.
pub open spec fn all_known<W>(offloads: Seq<OffloadResource<W>>, latches: LatchTable) -> bool {
    forall|i: int| 0 <= i < offloads.len() ==> (#[trigger] offloads[i]).known_to(latches)
}

/// The latches once every one of `offloads` was cancelled.
pub open spec fn latches_after_cancelling<W>(
    offloads: Seq<OffloadResource<W>>,
    latches: Seq<bool>,
) -> Seq<bool>
    decreases offloads.len(),
{
    if offloads.len() == 0 {
        latches
    } else {
        latches_after_cancelling(offloads.drop_last(), latches).update(
            offloads.last().cancellation.0 as int,
            true,
        ).update(offloads.last().finished.0 as int, true)
    }
}

/// The steps that cancelling every one of `offloads` takes.
pub open spec fn steps_of_cancelling<M, C, W>(
    offloads: Seq<OffloadResource<W>>,
    latches: Seq<bool>,
) -> Seq<Cleanup<M, C, W>>
    decreases offloads.len(),
{
    if offloads.len() == 0 {
        seq![]
    } else {
        steps_of_cancelling::<M, C, W>(offloads.drop_last(), latches)
            + offloads.last().cancel_steps(
            latches_after_cancelling(offloads.drop_last(), latches),
        ).map_values(|step: CancelStep<W>| Cleanup::<M, C, W>::Offload(step))
    }
}

/// Cancelled offloads.
pub open spec fn all_cancelled<W>(offloads: Seq<OffloadResource<W>>) -> Seq<OffloadResource<W>> {
    offloads.map_values(|offload: OffloadResource<W>| offload.cancelled())
}

/// Continuations to destroy.
pub open spec fn discarded_continuations<M, C, W>(messages: Seq<M>) -> Seq<Cleanup<M, C, W>> {
    messages.map_values(|message: M| Cleanup::<M, C, W>::Continuation(message))
}

/// Timer keys and messages to destroy.
pub open spec fn discarded_timers<M, C, W>(garbage: Seq<Garbage<M>>) -> Seq<Cleanup<M, C, W>> {
    garbage.map_values(|item: Garbage<M>| Cleanup::<M, C, W>::Timer(item))
}

/// Completions to destroy.
pub open spec fn discarded_events<M, C, W>(events: Seq<QueuedEvent<C>>) -> Seq<Cleanup<M, C, W>> {
    events.map_values(|event: QueuedEvent<C>| Cleanup::<M, C, W>::Completion(event))
}

/// Adds a timer's garbage to what is to be destroyed.
pub fn discard_timers<M, C, W>(garbage: Vec<Garbage<M>>, cleanup: &mut Vec<Cleanup<M, C, W>>)
    ensures
        final(cleanup)@ == old(cleanup)@ + discarded_timers::<M, C, W>(garbage@),
{
    let ghost all = garbage@;
    for item in iter: garbage
        invariant
            iter.seq() == all,
            cleanup@ == old(cleanup)@ + discarded_timers::<M, C, W>(all.take(iter.index() as int)),
    {
        cleanup.push(Cleanup::Timer(item));
        proof {
            assert(cleanup@ =~= old(cleanup)@ + discarded_timers::<M, C, W>(
                all.take(iter.index() as int + 1),
            ));
        }
    }
    proof {
        assert(all.take(all.len() as int) =~= all);
    }
}

/// Whether the captured armings belong to timers with no deadline left to
/// fire, each captured once.
pub open spec fn armings_fit<M>(armings: Seq<ArmingOrder>, timers: TimerModel<M>) -> bool {
    &&& forall|i: int|
        0 <= i < armings.len() ==> timers.fired((#[trigger] armings[i]).0) && armings[i].0
            <= timers.minted
    &&& forall|i: int, j: int|
        0 <= i < j < armings.len() ==> #[trigger] armings[i] != #[trigger] armings[j]
}

impl<M, C, W> RawModel<M, C, W> {
    /// What an incarnation owns at first: nothing.
    pub open spec fn unused() -> RawModel<M, C, W> {
        RawModel {
            accepting: true,
            continuations: seq![],
            last_delivery_was_continuation: false,
            timers: TimerModel {
                entries: Map::<u64, TimerEntry<M>>::empty(),
                armed: Set::<Armed>::empty(),
                minted: 0,
            },
            batch: None,
            events: seq![],
            panic: None,
            offloads: seq![],
        }
    }

    /// What holds of every incarnation: its timers are consistent, and the
    /// selection in progress captured only what there is.
    pub open spec fn wf(self) -> bool {
        &&& self.timers.wf()
        &&& self.timers.listed()
        &&& self.batch matches Some(batch) ==> batch.offloads_remaining <= self.events.len()
            && armings_fit(batch.armings(), self.timers)
    }

    /// The incarnation without the offloads that may be forgotten.
    pub open spec fn reclaimed(self, latches: Seq<bool>) -> RawModel<M, C, W> {
        RawModel {
            offloads: self.offloads.filter(
                |offload: OffloadResource<W>| !offload.retirable(latches),
            ),
            ..self
        }
    }

    /// Whether the oldest continuation may be delivered now. One that leads
    /// must not follow another.
    pub open spec fn can_continue(self, is_lead_slot: bool) -> bool {
        &&& !is_lead_slot || !self.last_delivery_was_continuation
        &&& self.batch is Some
        &&& self.batch->Some_0.admits_continuation()
        &&& self.continuations.len() > 0
    }

    /// The incarnation once its oldest continuation was delivered.
    pub open spec fn continued(self) -> RawModel<M, C, W> {
        RawModel {
            continuations: self.continuations.skip(1),
            batch: Some(self.batch->Some_0.continued()),
            last_delivery_was_continuation: true,
            ..self
        }
    }
}

impl<M, C, W> RawResources<M, C, W> {
    /// Everything the incarnation owns.
    pub open spec fn view(&self) -> RawModel<M, C, W> {
        RawModel {
            accepting: self.accepting,
            continuations: self.continuations@,
            last_delivery_was_continuation: self.last_delivery_was_continuation,
            timers: self.timers@,
            batch: match self.ready_batch {
                Some(batch) => Some(batch@),
                None => None,
            },
            events: self.events@,
            panic: self.panic@,
            offloads: self.offloads@,
        }
    }

    /// What holds of every ledger.
    pub open spec fn wf(&self) -> bool {
        &&& self.timers.wf()
        &&& self@.wf()
    }

    /// The ledger of an incarnation that owns nothing yet.
    pub fn new() -> (resources: RawResources<M, C, W>)
        ensures
            resources.wf(),
            resources@ == RawModel::<M, C, W>::unused(),
            !resources.events.pulsed,
    {
        let resources = RawResources {
            accepting: true,
            continuations: DisposingQueue::new(),
            last_delivery_was_continuation: false,
            timers: TimerStore::new(),
            ready_batch: None,
            events: EventQueue::new(),
            panic: PanicSlot::new(),
            offloads: Vec::new(),
        };
        proof {
            lemma_store_is_listed(resources.timers);
            assert(resources@ =~= RawModel::<M, C, W>::unused());
        }
        resources
    }

    /// Forgets the offloads whose completion was announced, so that the ledger
    /// holds only what is in flight.
    pub fn reclaim_finished(&mut self, latches: &LatchTable)
        ensures
            final(self)@ == old(self)@.reclaimed(latches@),
            final(self).timers == old(self).timers,
            final(self).events == old(self).events,
    {
        let ghost all = self.offloads@;
        let ghost keeps = |offload: OffloadResource<W>| !offload.retirable(latches@);
        let mut index: usize = 0;
        let ghost mut seen: int = 0;
        while index < self.offloads.len()
            invariant
                0 <= seen <= all.len(),
                index <= self.offloads@.len(),
                keeps == (|offload: OffloadResource<W>| !offload.retirable(latches@)),
                self.offloads@ == all.take(seen).filter(keeps) + all.skip(seen),
                index == all.take(seen).filter(keeps).len(),
                *self == (RawResources { offloads: self.offloads, ..*old(self) }),
            decreases self.offloads@.len() - index,
        {
            let ghost kept = all.take(seen).filter(keeps);
            proof {
                reveal(Seq::filter);
                assert(self.offloads@.len() == kept.len() + (all.len() - seen));
                assert(seen < all.len());
                assert(self.offloads@[index as int] == all[seen]);
                assert(all.take(seen + 1).drop_last() =~= all.take(seen));
            }
            if self.offloads[index].is_retirable(latches) {
                let _ = self.offloads.remove(index);
                proof {
                    assert(self.offloads@ =~= kept + all.skip(seen + 1));
                    assert(all.take(seen + 1).filter(keeps) == kept);
                }
            } else {
                index = index + 1;
                proof {
                    assert(all.take(seen + 1).filter(keeps) == kept.push(all[seen]));
                    assert(self.offloads@ =~= kept.push(all[seen]) + all.skip(seen + 1));
                }
            }
            proof {
                seen = seen + 1;
            }
        }
        proof {
            assert(self.offloads@.len() == index + (all.len() - seen));
            assert(seen == all.len());
            assert(all.take(seen) =~= all);
            assert(self.offloads@ =~= all.filter(keeps));
        }
    }

    /// Takes the oldest continuation, where it may be delivered now.
    pub fn pop_continuation(&mut self, is_lead_slot: bool) -> (message: Option<M>)
        requires
            old(self).wf(),
            old(self)@.batch is Some,
        ensures
            final(self).wf(),
            old(self)@.can_continue(is_lead_slot) ==> message == Some(old(self)@.continuations[0])
                && final(self)@ == old(self)@.continued(),
            !old(self)@.can_continue(is_lead_slot) ==> message is None && final(self)@ == old(
                self,
            )@,
            final(self).events.pulsed == old(self).events.pulsed,
    {
        if is_lead_slot && self.last_delivery_was_continuation {
            return None;
        }
        match &mut self.ready_batch {
            None => None,
            Some(batch) => {
                if !batch.continuation_is_eligible() {
                    return None;
                }
                match self.continuations.pop_front() {
                    None => None,
                    Some(message) => {
                        batch.record_continuation_delivery();
                        self.last_delivery_was_continuation = true;
                        Some(message)
                    },
                }
            },
        }
    }

    /// Takes the oldest completion the selection captured.
    pub fn pop_batched_event(&mut self) -> (event: Option<QueuedEvent<C>>)
        requires
            old(self).wf(),
            old(self)@.batch is Some,
        ensures
            final(self).wf(),
            ({
                let batch = old(self)@.batch->Some_0;
                if batch.offloads_remaining == 0 {
                    event is None && final(self)@ == old(self)@
                } else {
                    event == Some(old(self)@.events[0]) && final(self)@ == (RawModel {
                        events: old(self)@.events.skip(1),
                        batch: Some(
                            BatchModel {
                                offloads_remaining: (batch.offloads_remaining - 1) as nat,
                                ..batch
                            },
                        ),
                        ..old(self)@
                    })
                }
            }),
            final(self).events.pulsed == old(self).events.pulsed,
    {
        match &mut self.ready_batch {
            None => None,
            Some(batch) => self.events.pop_through(&mut batch.offloads_remaining),
        }
    }

    /// Retains a panic of cleanup, unless one is retained already, and wakes the
    /// incarnation either way; hands back the one to discard.
    pub fn record(&mut self, payload: PanicPayload) -> (rejected: Option<PanicPayload>)
        ensures
            final(self)@ == (RawModel {
                panic: first_of(old(self)@.panic, Some(payload)),
                ..old(self)@
            }),
            rejected == if old(self)@.panic is Some {
                Some(payload)
            } else {
                None
            },
            final(self).events.pulsed,
            final(self).timers == old(self).timers,
    {
        let rejected = self.panic.record(payload);
        self.events.pulsed = true;
        rejected
    }

    /// Takes in what destroying one value raised.
    pub fn dispose(&mut self, raised: Option<PanicPayload>) -> (rejected: Option<PanicPayload>)
        ensures
            final(self)@ == (RawModel { panic: first_of(old(self)@.panic, raised), ..old(self)@ }),
            rejected == if old(self)@.panic is Some {
                raised
            } else {
                None
            },
            final(self).events.pulsed == (old(self).events.pulsed || raised is Some),
            final(self).timers == old(self).timers,
    {
        match raised {
            Some(payload) => self.record(payload),
            None => None,
        }
    }

    /// Takes the retained panic, which the receive resumes.
    pub fn resume_pending_panic(&mut self) -> (resumed: Option<PanicPayload>)
        ensures
            resumed == old(self)@.panic,
            final(self)@ == (RawModel { panic: None, ..old(self)@ }),
            final(self).timers == old(self).timers,
            final(self).events == old(self).events,
    {
        self.panic.take()
    }
}

/// Steps of cancelling one offload.
pub open spec fn offload_steps<M, C, W>(steps: Seq<CancelStep<W>>) -> Seq<Cleanup<M, C, W>> {
    steps.map_values(|step: CancelStep<W>| Cleanup::<M, C, W>::Offload(step))
}

/// Adds the steps of cancelling one offload to what is to be done.
fn discard_offload<M, C, W>(items: Vec<CancelStep<W>>, cleanup: &mut Vec<Cleanup<M, C, W>>)
    ensures
        final(cleanup)@ == old(cleanup)@ + offload_steps::<M, C, W>(items@),
{
    let ghost all = items@;
    for item in iter: items
        invariant
            iter.seq() == all,
            cleanup@ == old(cleanup)@ + offload_steps::<M, C, W>(all.take(iter.index() as int)),
    {
        cleanup.push(Cleanup::Offload(item));
        proof {
            assert(cleanup@ =~= old(cleanup)@ + offload_steps::<M, C, W>(
                all.take(iter.index() as int + 1),
            ));
        }
    }
    proof {
        assert(all.take(all.len() as int) =~= all);
    }
}

/// Adds continuations to what is to be destroyed.
fn discard_continuations<M, C, W>(items: Vec<M>, cleanup: &mut Vec<Cleanup<M, C, W>>)
    ensures
        final(cleanup)@ == old(cleanup)@ + discarded_continuations::<M, C, W>(items@),
{
    let ghost all = items@;
    for item in iter: items
        invariant
            iter.seq() == all,
            cleanup@ == old(cleanup)@ + discarded_continuations::<M, C, W>(all.take(iter.index() as int)),
    {
        cleanup.push(Cleanup::Continuation(item));
        proof {
            assert(cleanup@ =~= old(cleanup)@ + discarded_continuations::<M, C, W>(
                all.take(iter.index() as int + 1),
            ));
        }
    }
    proof {
        assert(all.take(all.len() as int) =~= all);
    }
}

/// Adds completions to what is to be destroyed.
fn discard_events<M, C, W>(items: Vec<QueuedEvent<C>>, cleanup: &mut Vec<Cleanup<M, C, W>>)
    ensures
        final(cleanup)@ == old(cleanup)@ + discarded_events::<M, C, W>(items@),
{
    let ghost all = items@;
    for item in iter: items
        invariant
            iter.seq() == all,
            cleanup@ == old(cleanup)@ + discarded_events::<M, C, W>(all.take(iter.index() as int)),
    {
        cleanup.push(Cleanup::Completion(item));
        proof {
            assert(cleanup@ =~= old(cleanup)@ + discarded_events::<M, C, W>(
                all.take(iter.index() as int + 1),
            ));
        }
    }
    proof {
        assert(all.take(all.len() as int) =~= all);
    }
}

impl<M, C, W> RawModel<M, C, W> {
    /// The incarnation once it was frozen: it owns nothing and takes on
    /// nothing.
    pub open spec fn frozen(self) -> RawModel<M, C, W> {
        if !self.accepting {
            self
        } else {
            RawModel {
                accepting: false,
                continuations: seq![],
                timers: TimerModel {
                    entries: Map::empty(),
                    armed: Set::empty(),
                    ..self.timers
                },
                batch: None,
                events: seq![],
                offloads: all_cancelled(self.offloads),
                ..self
            }
        }
    }

    /// The latches once it was frozen.
    pub open spec fn frozen_latches(self, latches: Seq<bool>) -> Seq<bool> {
        if !self.accepting {
            latches
        } else {
            latches_after_cancelling(self.offloads, latches)
        }
    }
}

/// How a driving task ended.
#[derive(Debug)]
pub enum JoinOutcome {
    /// It returned.
    Finished,
    /// It was cancelled.
    Cancelled,
    /// It panicked, with the text of its payload where that is a string.
    Panic {
        /// The payload's text.
        message: Option<String>,
    },
}

impl JoinOutcome {
    /// The diagnostic to retain of the task that ended so.
    pub open spec fn diagnosis(self) -> Option<Seq<char>> {
        match self {
            JoinOutcome::Finished => None,
            JoinOutcome::Cancelled => None,
            JoinOutcome::Panic { message: Some(message) } => Some(message@),
            JoinOutcome::Panic { message: None } => Some(
                "library-owned offload task panicked without a string payload"@,
            ),
        }
    }

    /// The diagnostic to retain of the task that ended so.
    pub fn diagnostic(self) -> (text: Option<String>)
        ensures
            text is Some <==> self.diagnosis() is Some,
            text matches Some(said) ==> Some(said@) == self.diagnosis(),
    {
        match self {
            JoinOutcome::Finished => None,
            JoinOutcome::Cancelled => None,
            JoinOutcome::Panic { message: Some(message) } => Some(message),
            JoinOutcome::Panic { message: None } => Some(
                "library-owned offload task panicked without a string payload".to_string(),
            ),
        }
    }
}

/// The tasks that drive `offloads`, in order.
pub open spec fn tasks_of<W>(offloads: Seq<OffloadResource<W>>) -> Seq<u64>
    decreases offloads.len(),
{
    if offloads.len() == 0 {
        seq![]
    } else {
        match offloads.last().task {
            Some(task) => tasks_of(offloads.drop_last()).push(task),
            None => tasks_of(offloads.drop_last()),
        }
    }
}

impl<M, C, W> RawResources<M, C, W> {
    /// What freezing destroys, in order: each offload is cancelled, then the
    /// continuations, the timers and the completions are destroyed.
    pub open spec fn freeze_steps(&self, latches: Seq<bool>) -> Seq<Cleanup<M, C, W>> {
        if !self.accepting {
            seq![]
        } else {
            steps_of_cancelling::<M, C, W>(self.offloads@, latches) + discarded_continuations::<
                M,
                C,
                W,
            >(self.continuations@) + discarded_timers::<M, C, W>(garbage_of_all(self.timers.keyed@))
                + discarded_events::<M, C, W>(self.events@)
        }
    }

    /// Freezes the incarnation: nothing new is taken on, and everything it owns
    /// is handed out to be destroyed, each step behind its own boundary. What
    /// was retained before keeps precedence over what the freeze releases.
    /// Freezing again does nothing.
    pub fn freeze(&mut self, latches: &mut LatchTable) -> (steps: Vec<Cleanup<M, C, W>>)
        requires
            old(self).wf(),
            all_known(old(self).offloads@, *old(latches)),
        ensures
            final(self).wf(),
            final(self)@ == old(self)@.frozen(),
            steps@ == old(self).freeze_steps(old(latches)@),
            final(latches)@ == old(self)@.frozen_latches(old(latches)@),
            final(self).events.pulsed == old(self).events.pulsed,
    {
        let mut steps: Vec<Cleanup<M, C, W>> = Vec::new();
        if !self.accepting {
            return steps;
        }
        self.accepting = false;
        let ghost all = self.offloads@;
        let ghost fresh = latches@;
        let mut index: usize = 0;
        while index < self.offloads.len()
            invariant
                index <= all.len(),
                self.offloads@.len() == all.len(),
                all == old(self).offloads@,
                fresh == old(latches)@,
                all_known(all, *old(latches)),
                latches@.len() == fresh.len(),
                forall|i: int| 0 <= i < index ==> self.offloads@[i] == (#[trigger] all[i]).cancelled(),
                forall|i: int| index <= i < all.len() ==> self.offloads@[i] == #[trigger] all[i],
                latches@ == latches_after_cancelling(all.take(index as int), fresh),
                steps@ == steps_of_cancelling::<M, C, W>(all.take(index as int), fresh),
                *self == (RawResources {
                    accepting: false,
                    offloads: self.offloads,
                    ..*old(self)
                }),
            decreases all.len() - index,
        {
            proof {
                assert(all[index as int].known_to(*old(latches)));
                assert(all.take(index + 1).drop_last() =~= all.take(index as int));
                assert(all.take(index + 1).last() == all[index as int]);
            }
            let offload = &mut self.offloads[index];
            let cancelled = offload.cancel(latches);
            discard_offload(cancelled, &mut steps);
            index = index + 1;
        }
        proof {
            assert(all.take(index as int) =~= all);
            assert(self.offloads@ =~= all_cancelled(all));
        }
        let continuations = self.continuations.clear();
        discard_continuations(continuations, &mut steps);
        let mut garbage: Vec<Garbage<M>> = Vec::new();
        self.timers.clear(&mut garbage);
        discard_timers(garbage, &mut steps);
        self.ready_batch = None;
        let events = self.events.clear();
        discard_events(events, &mut steps);
        proof {
            lemma_store_is_listed(self.timers);
            assert(garbage@ =~= garbage_of_all(old(self).timers.keyed@));
            assert(self@ =~= old(self)@.frozen());
        }
        steps
    }

    /// Notes that the completion of the offload with this cancellation latch
    /// was published: its wake has returned, its panic retained, so that the
    /// ledger may forget it.
    pub fn publish_finished(&mut self, cancellation: LatchId)
        ensures
            final(self)@ == (RawModel {
                offloads: old(self)@.offloads.map_values(
                    |offload: OffloadResource<W>| offload.published(cancellation),
                ),
                ..old(self)@
            }),
            old(self).wf() ==> final(self).wf(),
            forall|latches: LatchTable|
                all_known(old(self).offloads@, latches) ==> #[trigger] all_known(
                    final(self).offloads@,
                    latches,
                ),
            final(self).timers == old(self).timers,
            final(self).events == old(self).events,
    {
        let ghost all = self.offloads@;
        let mut index: usize = 0;
        while index < self.offloads.len()
            invariant
                index <= all.len(),
                self.offloads@.len() == all.len(),
                all == old(self).offloads@,
                forall|i: int|
                    0 <= i < index ==> self.offloads@[i] == (#[trigger] all[i]).published(
                        cancellation,
                    ),
                forall|i: int| index <= i < all.len() ==> self.offloads@[i] == #[trigger] all[i],
                *self == (RawResources { offloads: self.offloads, ..*old(self) }),
            decreases all.len() - index,
        {
            let offload = &mut self.offloads[index];
            offload.publish_finished(cancellation);
            index = index + 1;
        }
        proof {
            assert(self.offloads@ =~= all.map_values(
                |offload: OffloadResource<W>| offload.published(cancellation),
            ));
            assert forall|latches: LatchTable| all_known(all, latches) implies #[trigger] all_known(
                self.offloads@,
                latches,
            ) by {
                assert forall|i: int| 0 <= i < all.len() implies (
                #[trigger] self.offloads@[i]).known_to(latches) by {
                    assert(all[i].known_to(latches));
                }
            }
        }
    }

    /// Takes the tasks that teardown joins, in order.
    pub fn take_tasks(&mut self) -> (tasks: Vec<u64>)
        ensures
            tasks@ == tasks_of(old(self)@.offloads),
            final(self)@ == (RawModel {
                offloads: old(self)@.offloads.map_values(
                    |offload: OffloadResource<W>| OffloadResource { task: None, ..offload },
                ),
                ..old(self)@
            }),
            final(self).timers == old(self).timers,
            final(self).events == old(self).events,
    {
        let ghost all = self.offloads@;
        let mut tasks: Vec<u64> = Vec::new();
        let mut index: usize = 0;
        while index < self.offloads.len()
            invariant
                index <= all.len(),
                self.offloads@.len() == all.len(),
                all == old(self).offloads@,
                forall|i: int|
                    0 <= i < index ==> self.offloads@[i] == (OffloadResource {
                        task: None,
                        ..#[trigger] all[i]
                    }),
                forall|i: int| index <= i < all.len() ==> self.offloads@[i] == #[trigger] all[i],
                tasks@ == tasks_of(all.take(index as int)),
                *self == (RawResources { offloads: self.offloads, ..*old(self) }),
            decreases all.len() - index,
        {
            proof {
                assert(all.take(index + 1).drop_last() =~= all.take(index as int));
                assert(all.take(index + 1).last() == all[index as int]);
            }
            let offload = &mut self.offloads[index];
            if let Some(task) = offload.task.take() {
                tasks.push(task);
            }
            index = index + 1;
        }
        proof {
            assert(all.take(index as int) =~= all);
            assert(self.offloads@ =~= all.map_values(
                |offload: OffloadResource<W>| OffloadResource { task: None, ..offload },
            ));
        }
        tasks
    }

    /// Ends the join: no offload is left, and completions that arrived
    /// meanwhile are destroyed.
    pub fn finish_join(&mut self) -> (steps: Vec<Cleanup<M, C, W>>)
        requires
            old(self).wf(),
            old(self)@.batch is None,
        ensures
            final(self).wf(),
            steps@ == discarded_events::<M, C, W>(old(self)@.events),
            final(self)@ == (RawModel { events: seq![], offloads: seq![], ..old(self)@ }),
            final(self).events.pulsed == old(self).events.pulsed,
    {
        let mut steps: Vec<Cleanup<M, C, W>> = Vec::new();
        let events = self.events.clear();
        discard_events(events, &mut steps);
        self.offloads = Vec::new();
        proof {
            assert(steps@ =~= discarded_events::<M, C, W>(old(self)@.events));
        }
        steps
    }
}

/// Freezing twice is freezing once, and a frozen incarnation owns nothing that
/// could still be delivered.
pub proof fn law_freezing_is_final<M, C, W>(owned: RawModel<M, C, W>, latches: Seq<bool>)
    ensures
        owned.frozen().frozen() == owned.frozen(),
        !owned.frozen().accepting,
        owned.frozen().frozen_latches(owned.frozen_latches(latches)) == owned.frozen_latches(
            latches,
        ),
        owned.accepting ==> {
            &&& owned.frozen().continuations.len() == 0
            &&& owned.frozen().events.len() == 0
            &&& owned.frozen().timers.entries.dom() =~= Set::<u64>::empty()
            &&& owned.frozen().panic == owned.panic
        },
{
}

} // verus!
