//! Mailbox phases, envelopes and the queue of parked sends.

use crate::identity::{Incarnation, MonotonicCounter};
use crate::mailbox::operation::{OperationPoll, SendOperation, WakerEffect, WakerId};
use crate::policy::ResolvedMailbox;
use crate::table::{ascending, has_key, index_of, keys_at_most, OrderedTable};
use vstd::prelude::*;

verus! {

/// The incarnation a mailbox is bound to, and the kind it was configured with.
#[derive(Clone, Copy, Debug, PartialEq, Eq, Structural)]
pub struct Binding {
    /// The accepting incarnation.
    pub incarnation: Incarnation,
    /// The configured mailbox kind.
    pub kind: ResolvedMailbox,
}

/// Where the mailbox is in its binding lifecycle.
///
/// The phase owns nothing: parked sends stay queued beside it, so no phase
/// change can displace one, and a full mailbox is simply bound with waiters.
#[derive(Clone, Copy, Debug, PartialEq, Eq, Structural)]
pub enum Phase {
    /// No incarnation receives.
    Unbound,
    /// The incarnation receives and accepts.
    Bound(Binding),
    /// The incarnation drains what was accepted; nothing more is.
    Frozen(Binding),
    /// Closed for good; names the last incarnation bound.
    Terminal(Option<Incarnation>),
}

impl Phase {
    /// The incarnation a sender would observe now.
    pub open spec fn observed(self) -> Option<Incarnation> {
        match self {
            Phase::Bound(binding) => Some(binding.incarnation),
            Phase::Frozen(binding) => Some(binding.incarnation),
            _ => None,
        }
    }

    /// The incarnation a sender would observe now.
    pub fn observation(self) -> (incarnation: Option<Incarnation>)
        ensures
            incarnation == self.observed(),
    {
        match self {
            Phase::Bound(binding) => Some(binding.incarnation),
            Phase::Frozen(binding) => Some(binding.incarnation),
            Phase::Unbound => None,
            Phase::Terminal(_) => None,
        }
    }
}

/// The position of a message in its mailbox's acceptance order.
#[derive(Clone, Copy, Debug, PartialEq, Eq, PartialOrd, Ord, Structural, Hash)]
pub struct AcceptedSequence(pub u64);

/// Which accepted messages a receive may observe.
#[derive(Clone, Copy, Debug, PartialEq, Eq, Structural)]
pub enum ReceiveMode {
    /// Any, also once the mailbox is frozen.
    Drain,
    /// Those accepted up to this one, while the mailbox is live.
    LiveThrough(AcceptedSequence),
}

impl ReceiveMode {
    /// Whether this mode may observe the message accepted as `sequence`.
    pub open spec fn admits(self, sequence: AcceptedSequence) -> bool {
        match self {
            ReceiveMode::Drain => true,
            ReceiveMode::LiveThrough(limit) => sequence.0 <= limit.0,
        }
    }

    /// Whether this mode may observe the message accepted as `sequence`.
    pub fn accepts(self, sequence: AcceptedSequence) -> (admitted: bool)
        ensures
            admitted == self.admits(sequence),
    {
        match self {
            ReceiveMode::Drain => true,
            ReceiveMode::LiveThrough(limit) => sequence.0 <= limit.0,
        }
    }
}

/// An accepted message and its place in the acceptance order.
#[derive(Debug)]
pub struct Envelope<M> {
    /// The message.
    pub message: M,
    /// When it was accepted.
    pub accepted_sequence: AcceptedSequence,
}

/// Names one parked send; never reused within its mailbox.
#[derive(Clone, Copy, Debug, PartialEq, Eq, PartialOrd, Ord, Structural, Hash)]
pub struct WaiterId(pub u64);

/// Parked sends in the order they arrived, each removable by id.
#[derive(Debug)]
pub struct WaiterQueue<M> {
    entries: OrderedTable<SendOperation<M>>,
    ids: MonotonicCounter,
}

/// Whether every row is a send that still waits.
pub open spec fn all_waiting<M>(rows: Seq<(u64, SendOperation<M>)>) -> bool {
    forall|i: int| 0 <= i < rows.len() ==> (#[trigger] rows[i]).1.is_waiting()
}

/// The rows once `incarnation` has bound.
pub open spec fn all_observed<M>(
    rows: Seq<(u64, SendOperation<M>)>,
    incarnation: Incarnation,
) -> Seq<(u64, SendOperation<M>)> {
    Seq::new(rows.len(), |i: int| (rows[i].0, rows[i].1.observed(incarnation)))
}

impl<M> WaiterQueue<M> {
    /// The parked sends, oldest first.
    pub closed spec fn view(&self) -> Seq<(u64, SendOperation<M>)> {
        self.entries@
    }

    /// The last id handed out.
    pub closed spec fn last_id(&self) -> u64 {
        self.ids@
    }

    /// Ids strictly increase and none exceeds the last one handed out.
    pub open spec fn wf(&self) -> bool {
        ascending(self@) && keys_at_most(self@, self.last_id()) && all_waiting(self@)
    }

    /// A queue with nothing parked.
    pub fn new() -> (queue: WaiterQueue<M>)
        ensures
            queue@ == Seq::<(u64, SendOperation<M>)>::empty(),
            queue.last_id() == 0,
            queue.wf(),
    {
        WaiterQueue { entries: OrderedTable::new(), ids: MonotonicCounter::new() }
    }

    /// Whether nothing is parked.
    pub fn is_empty(&self) -> (empty: bool)
        ensures
            empty == (self@.len() == 0),
    {
        self.entries.is_empty()
    }

    /// The number of parked sends.
    pub fn len(&self) -> (count: usize)
        ensures
            count == self@.len(),
    {
        self.entries.len()
    }

    /// The newest id handed out, or zero.
    pub fn last(&self) -> (id: u64)
        ensures
            id == self.last_id(),
    {
        self.ids.load()
    }

    /// Parks a fresh operation under a new id.
    pub fn park(&mut self, message: M, newest_observed: Option<Incarnation>) -> (id: WaiterId)
        requires
            old(self).wf(),
            old(self).last_id() < u64::MAX,
        ensures
            final(self).wf(),
            id.0 == old(self).last_id() + 1,
            final(self).last_id() == id.0,
            final(self)@ == old(self)@.push(
                (id.0, SendOperation::waiting(message, newest_observed)),
            ),
    {
        let id: u64 = self.ids.mint();
        self.entries.push(id, SendOperation::new(message, newest_observed));
        WaiterId(id)
    }

    /// Records on every parked send that `incarnation` bound.
    pub fn observe_all(&mut self, incarnation: Incarnation)
        requires
            old(self).wf(),
        ensures
            final(self).wf(),
            final(self).last_id() == old(self).last_id(),
            final(self)@ == all_observed(old(self)@, incarnation),
    {
        let count: usize = self.entries.len();
        let mut index: usize = 0;
        while index < count
            invariant
                index <= count,
                count == old(self)@.len(),
                old(self).wf(),
                self.ids == old(self).ids,
                self@.len() == count,
                forall|i: int|
                    0 <= i < index ==> self@[i] == #[trigger] all_observed(
                        old(self)@,
                        incarnation,
                    )[i],
                forall|i: int| index <= i < count ==> self@[i] == #[trigger] old(self)@[i],
            decreases count - index,
        {
            let operation = self.entries.value_mut(index);
            operation.observe(incarnation);
            index = index + 1;
        }
        proof {
            assert(self@ =~= all_observed(old(self)@, incarnation));
            assert forall|i: int| 0 <= i < self@.len() implies (#[trigger] self@[i]).1.is_waiting() by {
                assert(old(self)@[i].1.is_waiting());
            }
        }
    }

    /// Takes the oldest parked send.
    pub fn pop_front(&mut self) -> (oldest: Option<(u64, SendOperation<M>)>)
        requires
            old(self).wf(),
        ensures
            final(self).wf(),
            final(self).last_id() == old(self).last_id(),
            old(self)@.len() == 0 ==> oldest is None && final(self)@ == old(self)@,
            old(self)@.len() > 0 ==> oldest == Some(old(self)@[0]) && final(self)@ == old(
                self,
            )@.skip(1),
    {
        self.entries.pop_first()
    }

    /// Takes the parked send `id` names.
    pub fn remove(&mut self, id: WaiterId) -> (removed: Option<SendOperation<M>>)
        requires
            old(self).wf(),
        ensures
            final(self).wf(),
            final(self).last_id() == old(self).last_id(),
            removed is Some <==> has_key(old(self)@, id.0),
            removed is None ==> final(self)@ == old(self)@,
            removed matches Some(operation) ==> {
                let index = index_of(old(self)@, id.0);
                &&& 0 <= index < old(self)@.len()
                &&& old(self)@[index] == (id.0, operation)
                &&& final(self)@ == old(self)@.remove(index)
            },
    {
        match self.entries.position(id.0) {
            Some(index) => {
                let row = self.entries.remove_at(index);
                Some(row.1)
            },
            None => None,
        }
    }

    /// Empties the queue, handing out every parked send.
    pub fn detach(&mut self) -> (entries: OrderedTable<SendOperation<M>>)
        requires
            old(self).wf(),
        ensures
            final(self).wf(),
            final(self).last_id() == old(self).last_id(),
            final(self)@ == Seq::<(u64, SendOperation<M>)>::empty(),
            entries@ == old(self)@,
    {
        let mut entries = OrderedTable::new();
        core::mem::swap(&mut self.entries, &mut entries);
        entries
    }

    /// Polls the parked send `id` names.
    pub fn poll(
        &mut self,
        id: WaiterId,
        replacement: Option<WakerId>,
        current: WakerId,
        wakers: &mut Vec<WakerEffect>,
    ) -> (result: Option<OperationPoll<M>>)
        requires
            old(self).wf(),
        ensures
            final(self).wf(),
            final(self).last_id() == old(self).last_id(),
            result is Some <==> has_key(old(self)@, id.0),
            result is None ==> final(self)@ == old(self)@ && final(wakers)@ == old(wakers)@,
            result matches Some(polled) ==> {
                let index = index_of(old(self)@, id.0);
                let operation = old(self)@[index].1;
                &&& 0 <= index < old(self)@.len()
                &&& old(self)@[index].0 == id.0
                &&& polled == operation.poll_result(replacement, current)
                &&& final(self)@ == old(self)@.update(
                    index,
                    (id.0, operation.after_poll(replacement)),
                )
                &&& final(wakers)@ == old(wakers)@ + operation.poll_drops(replacement)
            },
    {
        match self.entries.position(id.0) {
            Some(index) => {
                assert(self@[index as int].1.is_waiting());
                let operation = self.entries.value_mut(index);
                let polled = operation.poll(replacement, current, wakers);
                Some(polled)
            },
            None => None,
        }
    }
}

} // verus!
