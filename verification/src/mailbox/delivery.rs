//! What a mailbox promises those who send to it, read it and supervise it,
//! said of the messages themselves.

use crate::identity::Incarnation;
use crate::mailbox::cell::{BindRefusal, MailboxBindToken, MailboxCell};
use crate::mailbox::effects::{FlushStepModel, MailboxEffects};
use crate::mailbox::model::{wakes_of, EffectsModel, MailboxModel, Submission};
use crate::mailbox::operation::{
    OperationOutcome, OperationPoll, SendOperation, WakerEffect, WakerId, WithdrawalDisposition,
    WithdrawalOutcome,
};
use crate::mailbox::state::{AcceptedSequence, Binding, Envelope, Phase, ReceiveMode, WaiterId};
use crate::mailbox::SendError;
use crate::policy::ResolvedMailbox;
use crate::table::{has_key, index_of, lemma_index_is_unique};
use vstd::prelude::*;

verus! {

/// A live reader gets the oldest unread message up to its limit, whatever the
/// mailbox kind: the head of the queue, or the value in the slot. It gets
/// nothing only where nothing is unread or the oldest message is past the
/// limit.
pub proof fn law_a_live_read_yields_the_oldest_message<M>(
    model: MailboxModel<M>,
    binding: Binding,
    limit: AcceptedSequence,
)
    requires
        model.wf(),
        model.phase == Phase::Bound(binding),
    ensures
        ({
            let read = model.received(binding.incarnation, ReceiveMode::LiveThrough(limit));
            &&& model.queue.len() > 0 && model.queue[0].accepted_sequence.0 <= limit.0 ==> read
                == Some(model.queue[0])
            &&& model.queue.len() > 0 && model.queue[0].accepted_sequence.0 > limit.0 ==> read
                is None
            &&& model.latest matches Some(slot) ==> (slot.accepted_sequence.0 <= limit.0 ==> read
                == Some(slot))
            &&& model.latest matches Some(slot) ==> (slot.accepted_sequence.0 > limit.0 ==> read
                is None)
            &&& model.queue.len() == 0 && model.latest is None ==> read is None
        }),
{
}

/// Draining yields the oldest unread message, frozen or not, and nothing only
/// where nothing is unread.
pub proof fn law_a_drain_yields_the_oldest_message<M>(model: MailboxModel<M>, binding: Binding)
    requires
        model.wf(),
        model.phase == Phase::Bound(binding) || model.phase == Phase::Frozen(binding),
    ensures
        ({
            let read = model.received(binding.incarnation, ReceiveMode::Drain);
            &&& model.queue.len() > 0 ==> read == Some(model.queue[0])
            &&& model.latest matches Some(slot) ==> read == Some(slot)
            &&& model.queue.len() == 0 && model.latest is None ==> read is None
        }),
{
}

/// Nobody reads a mailbox but the incarnation it is bound to, and a frozen one
/// is only drained: any other read yields nothing and changes nothing.
pub proof fn law_only_the_bound_incarnation_reads<M>(
    model: MailboxModel<M>,
    incarnation: Incarnation,
    mode: ReceiveMode,
)
    requires
        model.wf(),
        match model.phase {
            Phase::Bound(binding) => binding.incarnation != incarnation,
            Phase::Frozen(binding) => binding.incarnation != incarnation || mode is LiveThrough,
            _ => true,
        },
    ensures
        model.received(incarnation, mode) is None,
        model.after_receive(incarnation, mode) == model,
        !model.receive_effects(incarnation, mode).pulse,
        model.receive_effects(incarnation, mode).displaced.len() == 0,
        model.receive_effects(incarnation, mode).wakers.len() == 0,
{
}

/// A read that nobody was parked behind takes out exactly the message it
/// yields; so does one from a frozen mailbox. A read that yields nothing
/// changes nothing.
pub proof fn law_a_read_takes_only_what_it_yields<M>(
    model: MailboxModel<M>,
    incarnation: Incarnation,
    mode: ReceiveMode,
)
    requires
        model.wf(),
        model.accepted < u64::MAX,
    ensures
        ({
            let after = model.after_receive(incarnation, mode);
            let effects = model.receive_effects(incarnation, mode);
            &&& model.received(incarnation, mode) is None ==> after == model
            &&& model.received(incarnation, mode) is Some && (model.waiters.len() == 0
                || model.phase is Frozen) ==> {
                &&& model.kind matches Some(ResolvedMailbox::Queue(_)) ==> after
                    == (MailboxModel::<M> { queue: model.queue.skip(1), ..model })
                &&& model.kind == Some(ResolvedMailbox::Latest) ==> after
                    == (MailboxModel::<M> { latest: None, ..model })
                &&& effects.wakers.len() == 0
            }
            &&& !effects.pulse
            &&& effects.displaced.len() == 0
        }),
{
    if model.received(incarnation, mode) is Some && model.phase is Bound {
        let binding = model.phase->Bound_0;
        let freed = model.without_next(binding.kind);
        let after = model.after_receive(incarnation, mode);
        if binding.kind is Latest {
            assert(freed.promotable(binding.kind) == 0);
            assert(freed.slot_history(0) =~= seq![]);
        }
        if model.waiters.len() == 0 {
            assert(freed.promotable(binding.kind) == 0);
            assert(after.waiters =~= model.waiters);
            assert(after.settled =~= model.settled);
            assert(after.queue =~= freed.queue);
            assert(model.waiters.take(0) =~= seq![]);
            assert(model.receive_effects(incarnation, mode).wakers =~= seq![]);
        }
    }
}

/// A read from a full live queue admits the oldest parked send in the freed
/// place: its message joins the queue last, the send is decided as accepted,
/// and whoever waits on it is woken. The other parked sends stay as they were.
pub proof fn law_a_read_admits_the_oldest_parked_send<M>(
    model: MailboxModel<M>,
    binding: Binding,
    mode: ReceiveMode,
)
    requires
        model.wf(),
        model.accepted < u64::MAX,
        model.phase == Phase::Bound(binding),
        model.received(binding.incarnation, mode) is Some,
        model.waiters.len() > 0,
    ensures
        ({
            let after = model.after_receive(binding.incarnation, mode);
            let effects = model.receive_effects(binding.incarnation, mode);
            let (id, send) = model.waiters[0];
            &&& send.outcome matches OperationOutcome::Waiting { message, .. }
            &&& after == (MailboxModel::<M> {
                queue: model.queue.skip(1).push(
                    Envelope {
                        message,
                        accepted_sequence: AcceptedSequence((model.accepted + 1) as u64),
                    },
                ),
                accepted: (model.accepted + 1) as u64,
                waiters: model.waiters.skip(1),
                settled: model.settled.push(
                    (
                        id,
                        SendOperation {
                            outcome: OperationOutcome::Accepted(binding.incarnation),
                            waker: None,
                        },
                    ),
                ),
                ..model
            })
            &&& send.waker matches Some(waker) ==> effects.wakers == seq![WakerEffect::Wake(waker)]
            &&& send.waker is None ==> effects.wakers.len() == 0
        }),
{
    let freed = model.without_next(binding.kind);
    let after = model.after_receive(binding.incarnation, mode);
    let (id, send) = model.waiters[0];
    assert(send.is_waiting());
    assert(binding.kind is Queue);
    assert(freed.promotable(binding.kind) == 1);
    assert(after.queue =~= model.queue.skip(1).push(freed.promoted_envelope(0)));
    assert(after.settled =~= model.settled.push(
        (
            id,
            SendOperation {
                outcome: OperationOutcome::Accepted(binding.incarnation),
                waker: None,
            },
        ),
    ));
    lemma_wakes_of_one(freed.waiters);
    assert(freed.promotion_wakes(1) == send.wakes());
}

proof fn lemma_wakes_of_one<M>(rows: Seq<(u64, SendOperation<M>)>)
    requires
        rows.len() > 0,
    ensures
        wakes_of(rows.take(1)) == rows[0].1.wakes(),
{
    let one = rows.take(1);
    assert(one.drop_last() =~= seq![]);
    assert(wakes_of(one.drop_last()) =~= seq![]);
    assert(wakes_of(one) =~= rows[0].1.wakes());
}

/// The mailbox after `reads` live reads in a row.
pub open spec fn after_reads<M>(
    model: MailboxModel<M>,
    incarnation: Incarnation,
    limit: AcceptedSequence,
    reads: nat,
) -> MailboxModel<M>
    decreases reads,
{
    if reads == 0 {
        model
    } else {
        after_reads(model, incarnation, limit, (reads - 1) as nat).after_receive(
            incarnation,
            ReceiveMode::LiveThrough(limit),
        )
    }
}

proof fn lemma_after_reads<M>(
    model: MailboxModel<M>,
    binding: Binding,
    limit: AcceptedSequence,
    reads: nat,
)
    requires
        model.wf(),
        model.phase == Phase::Bound(binding),
        model.waiters.len() == 0,
        model.accepted < u64::MAX,
        model.accepted <= limit.0,
        reads <= model.queue.len(),
    ensures
        after_reads(model, binding.incarnation, limit, reads) == (MailboxModel::<M> {
            queue: model.queue.skip(reads as int),
            ..model
        }),
        after_reads(model, binding.incarnation, limit, reads).wf(),
    decreases reads,
{
    if reads == 0 {
        assert(model.queue.skip(0) =~= model.queue);
    } else {
        let fewer = (reads - 1) as nat;
        lemma_after_reads(model, binding, limit, fewer);
        let before = after_reads(model, binding.incarnation, limit, fewer);
        assert(before.queue[0] == model.queue[fewer as int]);
        law_a_live_read_yields_the_oldest_message(before, binding, limit);
        law_a_read_takes_only_what_it_yields(
            before,
            binding.incarnation,
            ReceiveMode::LiveThrough(limit),
        );
        assert(before.queue.skip(1) =~= model.queue.skip(reads as int));
    }
    let after = after_reads(model, binding.incarnation, limit, reads);
    assert forall|i: int, j: int| 0 <= i < j < after.queue.len() implies
        after.queue[i].accepted_sequence.0 < after.queue[j].accepted_sequence.0 by {
        assert(after.queue[i] == model.queue[i + reads]);
        assert(after.queue[j] == model.queue[j + reads]);
    }
    assert forall|i: int| 0 <= i < after.queue.len() implies (
    #[trigger] after.queue[i]).accepted_sequence.0 <= model.accepted by {
        assert(after.queue[i] == model.queue[i + reads]);
    }
}

/// Live reads empty a queue in order: after `reads` of them the next one yields
/// the message that stood at that place, and nothing once all were read.
pub proof fn law_reads_empty_the_queue_in_order<M>(
    model: MailboxModel<M>,
    binding: Binding,
    limit: AcceptedSequence,
    reads: nat,
)
    requires
        model.wf(),
        model.phase == Phase::Bound(binding),
        binding.kind is Queue,
        model.waiters.len() == 0,
        model.accepted < u64::MAX,
        model.accepted <= limit.0,
        reads <= model.queue.len(),
    ensures
        ({
            let next = after_reads(model, binding.incarnation, limit, reads).received(
                binding.incarnation,
                ReceiveMode::LiveThrough(limit),
            );
            &&& reads < model.queue.len() ==> next == Some(model.queue[reads as int])
            &&& reads == model.queue.len() ==> next is None
        }),
{
    lemma_after_reads(model, binding, limit, reads);
    let after = after_reads(model, binding.incarnation, limit, reads);
    if reads < model.queue.len() {
        assert(after.queue[0] == model.queue[reads as int]);
    }
    law_a_live_read_yields_the_oldest_message(after, binding, limit);
}

/// A submission is accepted by a live mailbox with nobody parked and room left,
/// returned by a terminated one, and parked last in line everywhere else. Each
/// time the message itself is what is kept or returned.
pub proof fn law_a_submission_is_accepted_parked_or_returned<M>(
    model: MailboxModel<M>,
    message: M,
)
    requires
        model.wf(),
        model.accepted < u64::MAX,
        model.last_id < u64::MAX,
    ensures
        ({
            let after = model.submitted(message);
            let effects = model.submission_effects();
            let sequence = AcceptedSequence((model.accepted + 1) as u64);
            let envelope = Envelope { message, accepted_sequence: sequence };
            let id = (model.last_id + 1) as u64;
            let parked = |seen: Option<Incarnation>|
                MailboxModel::<M> {
                    waiters: model.waiters.push(
                        (
                            id,
                            SendOperation {
                                outcome: OperationOutcome::Waiting {
                                    message,
                                    newest_observed: seen,
                                },
                                waker: None,
                            },
                        ),
                    ),
                    last_id: id,
                    ..model
                };
            match model.phase {
                Phase::Bound(Binding { incarnation, kind: ResolvedMailbox::Latest }) => {
                    &&& model.submission(message) == Submission::<M>::Accepted(incarnation)
                    &&& after == (MailboxModel::<M> {
                        latest: Some(envelope),
                        accepted: sequence.0,
                        ..model
                    })
                    &&& effects.pulse && !effects.isolate_displaced
                    &&& effects.displaced == match model.latest {
                        Some(prior) => seq![prior],
                        None => seq![],
                    }
                    &&& effects.wakers.len() == 0
                },
                Phase::Bound(Binding { incarnation, kind: ResolvedMailbox::Queue(capacity) }) => {
                    if model.waiters.len() == 0 && model.queue.len() < capacity@ {
                        &&& model.submission(message) == Submission::<M>::Accepted(incarnation)
                        &&& after == (MailboxModel::<M> {
                            queue: model.queue.push(envelope),
                            accepted: sequence.0,
                            ..model
                        })
                        &&& effects.pulse
                        &&& effects.displaced.len() == 0
                        &&& effects.wakers.len() == 0
                    } else {
                        &&& model.submission(message) == Submission::<M>::Parked(WaiterId(id))
                        &&& after == parked(Some(incarnation))
                        &&& !effects.pulse && effects.displaced.len() == 0 && effects.wakers.len() == 0
                    }
                },
                Phase::Frozen(binding) => {
                    &&& model.submission(message) == Submission::<M>::Parked(WaiterId(id))
                    &&& after == parked(Some(binding.incarnation))
                    &&& !effects.pulse && effects.displaced.len() == 0 && effects.wakers.len() == 0
                },
                Phase::Unbound => {
                    &&& model.submission(message) == Submission::<M>::Parked(WaiterId(id))
                    &&& after == parked(None)
                    &&& !effects.pulse && effects.displaced.len() == 0 && effects.wakers.len() == 0
                },
                Phase::Terminal(last) => {
                    &&& model.submission(message) == Submission::<M>::Terminated {
                        message,
                        final_incarnation: last,
                    }
                    &&& after == model
                    &&& !effects.pulse && effects.displaced.len() == 0 && effects.wakers.len() == 0
                },
            }
        }),
{
}

/// A live mailbox takes a message at once exactly where nobody is parked and
/// it has room, a latest-value one always; what it then holds is what it held,
/// with that message the newest.
pub proof fn law_acceptance_adds_the_newest_message<M>(
    model: MailboxModel<M>,
    binding: Binding,
    message: M,
)
    requires
        model.wf(),
        model.phase == Phase::Bound(binding),
        model.accepted < u64::MAX,
    ensures
        ({
            let after = model.pushed(binding.kind, message);
            let effects = model.acceptance_effects(binding.kind);
            let sequence = AcceptedSequence((model.accepted + 1) as u64);
            let envelope = Envelope { message, accepted_sequence: sequence };
            &&& effects.pulse && !effects.isolate_displaced && effects.wakers.len() == 0
            &&& match binding.kind {
                ResolvedMailbox::Queue(capacity) => {
                    &&& model.accepts_now(binding.kind) <==> model.waiters.len() == 0
                        && model.queue.len() < capacity@
                    &&& after == (MailboxModel::<M> {
                        queue: model.queue.push(envelope),
                        accepted: sequence.0,
                        ..model
                    })
                    &&& effects.displaced.len() == 0
                },
                ResolvedMailbox::Latest => {
                    &&& model.accepts_now(binding.kind)
                    &&& after == (MailboxModel::<M> {
                        latest: Some(envelope),
                        accepted: sequence.0,
                        ..model
                    })
                    &&& model.latest matches Some(prior) ==> effects.displaced == seq![prior]
                    &&& model.latest is None ==> effects.displaced.len() == 0
                },
            }
        }),
{
}

/// What is accepted can be read at once: after an accepted submission a live
/// read through the newest position yields that message where nothing older is
/// queued, and the oldest queued one otherwise. A latest-value mailbox always
/// yields the message submitted last.
pub proof fn law_an_accepted_message_can_be_read<M>(
    model: MailboxModel<M>,
    binding: Binding,
    message: M,
)
    requires
        model.wf(),
        model.accepted < u64::MAX,
        model.last_id < u64::MAX,
        model.phase == Phase::Bound(binding),
        model.submission(message) is Accepted,
    ensures
        ({
            let after = model.submitted(message);
            let live = after.received(
                binding.incarnation,
                ReceiveMode::LiveThrough(AcceptedSequence(after.accepted)),
            );
            let drained = after.received(binding.incarnation, ReceiveMode::Drain);
            &&& live matches Some(read) && (model.queue.len() == 0 ==> read.message == message)
            &&& model.queue.len() > 0 ==> live == Some(model.queue[0])
            &&& live == drained
            &&& after.frozen(binding.incarnation).received(
                binding.incarnation,
                ReceiveMode::Drain,
            ) == live
        }),
{
    law_a_submission_is_accepted_parked_or_returned(model, message);
    let after = model.submitted(message);
    if binding.kind is Queue && model.queue.len() > 0 {
        assert(after.queue[0] == model.queue[0]);
    }
}

/// Two messages accepted one after the other by an empty queue are read in that
/// order; a latest-value mailbox yields only the second, and the first is
/// displaced.
pub proof fn law_two_messages_are_read_in_order<M>(
    model: MailboxModel<M>,
    binding: Binding,
    first: M,
    second: M,
)
    requires
        model.wf(),
        model.accepted < u64::MAX - 2,
        model.last_id < u64::MAX - 1,
        model.phase == Phase::Bound(binding),
        model.queue.len() == 0,
        model.submission(first) is Accepted,
        model.submitted(first).submission(second) is Accepted,
    ensures
        ({
            let filled = model.submitted(first).submitted(second);
            let mode = ReceiveMode::LiveThrough(AcceptedSequence(filled.accepted));
            let rest = filled.after_receive(binding.incarnation, mode);
            &&& filled.received(binding.incarnation, mode) matches Some(read)
            &&& binding.kind is Queue ==> {
                &&& read.message == first
                &&& rest.received(binding.incarnation, mode) matches Some(next)
                    && next.message == second
            }
            &&& binding.kind is Latest ==> {
                &&& read.message == second
                &&& rest.received(binding.incarnation, mode) is None
                &&& model.submitted(first).submission_effects().displaced.len() == 1
                &&& model.submitted(first).submission_effects().displaced[0].message == first
            }
        }),
{
    let filled = model.submitted(first).submitted(second);
    let mode = ReceiveMode::LiveThrough(AcceptedSequence(filled.accepted));
    law_a_submission_is_accepted_parked_or_returned(model, first);
    law_a_submission_is_accepted_parked_or_returned(model.submitted(first), second);
    if binding.kind is Queue {
        assert(filled.queue[0].message == first);
        assert(filled.queue[1].message == second);
        assert(filled.queue.skip(1)[0] == filled.queue[1]);
    }
    law_a_read_takes_only_what_it_yields(filled, binding.incarnation, mode);
}

/// The rows of parked sends that carry a waker are woken, each once and in
/// order, and nobody else is.
proof fn lemma_wakes_cover<M>(rows: Seq<(u64, SendOperation<M>)>)
    ensures
        forall|i: int| #![trigger rows[i]]
            0 <= i < rows.len() && rows[i].1.waker is Some ==> wakes_of(rows).contains(
                WakerEffect::Wake(rows[i].1.waker->Some_0),
            ),
        forall|k: int| #![trigger wakes_of(rows)[k]]
            0 <= k < wakes_of(rows).len() ==> exists|i: int|
                0 <= i < rows.len() && (#[trigger] rows[i]).1.waker is Some
                    && wakes_of(rows)[k] == WakerEffect::Wake(
                    rows[i].1.waker->Some_0,
                ),
        wakes_of(rows).len() <= rows.len(),
        (forall|i: int| 0 <= i < rows.len() ==> (#[trigger] rows[i]).1.waker is Some)
            ==> wakes_of(rows) == Seq::new(
            rows.len(),
            |i: int| WakerEffect::Wake(rows[i].1.waker->Some_0),
        ),
    decreases rows.len(),
{
    let wakes = wakes_of(rows);
    if rows.len() > 0 {
        let fewer = rows.drop_last();
        let before = wakes_of(fewer);
        lemma_wakes_cover(fewer);
        assert(wakes =~= before + rows.last().1.wakes());
        assert forall|i: int| #![trigger rows[i]]
            0 <= i < rows.len() && rows[i].1.waker is Some implies wakes.contains(
            WakerEffect::Wake(rows[i].1.waker->Some_0),
        ) by {
            let waker = rows[i].1.waker->Some_0;
            if i < fewer.len() {
                assert(fewer[i] == rows[i]);
                assert(before.contains(WakerEffect::Wake(waker)));
                let k = choose|k: int|
                    0 <= k < before.len() && before[k] == WakerEffect::Wake(waker);
                assert(wakes[k] == before[k]);
            } else {
                assert(wakes[before.len() as int] == WakerEffect::Wake(waker));
            }
        }
        assert forall|k: int| #![trigger wakes[k]] 0 <= k < wakes.len() implies exists|i: int|
            0 <= i < rows.len() && (#[trigger] rows[i]).1.waker is Some && wakes[k]
                == WakerEffect::Wake(rows[i].1.waker->Some_0) by {
            if k < before.len() {
                assert(wakes[k] == before[k]);
                let i = choose|i: int|
                    0 <= i < fewer.len() && (#[trigger] fewer[i]).1.waker is Some && before[k]
                        == WakerEffect::Wake(fewer[i].1.waker->Some_0);
                assert(rows[i] == fewer[i]);
            } else {
                assert(rows[rows.len() - 1].1.waker is Some);
            }
        }
        if forall|i: int| 0 <= i < rows.len() ==> (#[trigger] rows[i]).1.waker is Some {
            assert forall|i: int| 0 <= i < fewer.len() implies (
            #[trigger] fewer[i]).1.waker is Some by {
                assert(fewer[i] == rows[i]);
            }
            assert(rows[rows.len() - 1].1.waker is Some);
            assert(wakes =~= Seq::new(
                rows.len(),
                |i: int| WakerEffect::Wake(rows[i].1.waker->Some_0),
            ));
        }
    } else {
        assert(wakes =~= seq![]);
        assert(wakes =~= Seq::new(
            rows.len(),
            |i: int| WakerEffect::Wake(rows[i].1.waker->Some_0),
        ));
    }
}

/// Binding makes the incarnation the one that receives and spends the permit;
/// every send still parked has seen it, and keeps its id, message and waker.
pub proof fn law_binding_is_seen_by_every_parked_send<M>(model: MailboxModel<M>, binding: Binding)
    requires
        model.wf(),
        model.phase is Unbound,
        model.kind == Some(binding.kind),
        model.accepted + model.waiters.len() <= u64::MAX,
    ensures
        ({
            let after = model.bound(binding);
            let accepted = model.waiters.len() - after.waiters.len();
            &&& after.phase == Phase::Bound(binding)
            &&& after.last_bound == Some(binding.incarnation)
            &&& after.permit_claimed
            &&& after.permit == model.permit
            &&& after.actor == model.actor && after.serial == model.serial
            &&& after.kind == model.kind
            &&& after.last_id == model.last_id
            &&& after.detached == model.detached
            &&& after.accepted == model.accepted + accepted
            &&& 0 <= accepted
            &&& forall|i: int| #![trigger after.waiters[i]]
                0 <= i < after.waiters.len() ==> {
                    let (id, send) = model.waiters[accepted + i];
                    &&& after.waiters[i].0 == id
                    &&& after.waiters[i].1.waker == send.waker
                    &&& after.waiters[i].1.outcome == OperationOutcome::Waiting {
                        message: send.outcome->Waiting_message,
                        newest_observed: Some(binding.incarnation),
                    }
                }
        }),
{
    let observed = model.binding_observed(binding);
    let after = model.bound(binding);
    let count = observed.promotable(binding.kind);
    assert forall|i: int| #![trigger after.waiters[i]] 0 <= i < after.waiters.len() implies ({
        let (id, send) = model.waiters[count + i];
        &&& after.waiters[i].0 == id
        &&& after.waiters[i].1.waker == send.waker
        &&& after.waiters[i].1.outcome == OperationOutcome::Waiting {
            message: send.outcome->Waiting_message,
            newest_observed: Some(binding.incarnation),
        }
    }) by {
        assert(model.waiters[count + i].1.is_waiting());
        assert(after.waiters[i] == observed.waiters[count + i]);
    }
}

/// Binding a queue fills it from the parked sends: as many as the capacity
/// admits are accepted, oldest first, each under the next position, and whoever
/// waits on one of them is woken.
pub proof fn law_binding_a_queue_accepts_the_oldest_sends<M>(
    model: MailboxModel<M>,
    binding: Binding,
)
    requires
        model.wf(),
        model.phase is Unbound,
        model.kind == Some(binding.kind),
        binding.kind is Queue,
        model.accepted + model.waiters.len() <= u64::MAX,
    ensures
        ({
            let after = model.bound(binding);
            let effects = model.bind_effects(binding);
            let capacity = binding.kind->Queue_0@;
            let count: int = if model.waiters.len() <= capacity {
                model.waiters.len() as int
            } else {
                capacity as int
            };
            &&& after.queue.len() == count
            &&& after.latest is None
            &&& after.waiters.len() == model.waiters.len() - count
            &&& after.settled.len() == model.settled.len() + count
            &&& after.settled.take(model.settled.len() as int) == model.settled
            &&& forall|i: int| #![trigger after.queue[i]]
                0 <= i < count ==> {
                    &&& after.queue[i].message == model.waiters[i].1.outcome->Waiting_message
                    &&& after.queue[i].accepted_sequence.0 == model.accepted + 1 + i
                }
            &&& forall|i: int| #![trigger model.waiters[i]]
                0 <= i < count ==> {
                    let (id, send) = after.settled[model.settled.len() + i];
                    &&& id == model.waiters[i].0
                    &&& send.outcome == OperationOutcome::<M>::Accepted(binding.incarnation)
                    &&& send.waker is None
                }
            &&& effects.pulse
            &&& effects.displaced.len() == 0
            &&& forall|i: int| #![trigger model.waiters[i]]
                0 <= i < count && model.waiters[i].1.waker is Some ==> effects.wakers.contains(
                    WakerEffect::Wake(model.waiters[i].1.waker->Some_0),
                )
            &&& effects.wakers.len() <= count
        }),
{
    let observed = model.binding_observed(binding);
    let after = model.bound(binding);
    let count = observed.promotable(binding.kind);
    let capacity = binding.kind->Queue_0@;
    assert(after.settled.take(model.settled.len() as int) =~= model.settled);
    assert forall|i: int| #![trigger after.queue[i]] 0 <= i < count implies ({
        &&& after.queue[i].message == model.waiters[i].1.outcome->Waiting_message
        &&& after.queue[i].accepted_sequence.0 == model.accepted + 1 + i
    }) by {
        assert(model.waiters[i].1.is_waiting());
        assert(after.queue[i] == observed.promoted_envelope(i));
    }
    lemma_wakes_cover(observed.waiters.take(count as int));
    assert forall|i: int| #![trigger model.waiters[i]]
        0 <= i < count && model.waiters[i].1.waker is Some implies model.bind_effects(
        binding,
    ).wakers.contains(WakerEffect::Wake(model.waiters[i].1.waker->Some_0)) by {
        assert(observed.waiters.take(count as int)[i] == observed.waiters[i]);
        assert(model.waiters[i].1.is_waiting());
    }
}

/// Binding a latest-value mailbox accepts every parked send: the youngest is
/// the one to be read, all older ones go to the disposal lane in order, and
/// every send waited on is woken.
pub proof fn law_binding_a_slot_accepts_every_send<M>(model: MailboxModel<M>, binding: Binding)
    requires
        model.wf(),
        model.phase is Unbound,
        model.kind == Some(binding.kind),
        binding.kind is Latest,
        model.accepted + model.waiters.len() <= u64::MAX,
    ensures
        ({
            let after = model.bound(binding);
            let effects = model.bind_effects(binding);
            let count = model.waiters.len() as int;
            &&& after.waiters.len() == 0
            &&& after.queue.len() == 0
            &&& count == 0 ==> after.latest is None && effects.displaced.len() == 0
            &&& count > 0 ==> {
                &&& after.latest matches Some(slot)
                &&& slot.message == model.waiters[count - 1].1.outcome->Waiting_message
                &&& slot.accepted_sequence.0 == model.accepted + count
                &&& effects.displaced.len() == count - 1
            }
            &&& forall|i: int| #![trigger effects.displaced[i]]
                0 <= i < count - 1 ==> effects.displaced[i].message
                    == model.waiters[i].1.outcome->Waiting_message
            &&& forall|i: int| #![trigger model.waiters[i]]
                0 <= i < count ==> {
                    let (id, send) = after.settled[model.settled.len() + i];
                    &&& id == model.waiters[i].0
                    &&& send.outcome == OperationOutcome::<M>::Accepted(binding.incarnation)
                    &&& send.waker is None
                }
            &&& effects.pulse
            &&& effects.isolate_displaced
            &&& forall|i: int| #![trigger model.waiters[i]]
                0 <= i < count && model.waiters[i].1.waker is Some ==> effects.wakers.contains(
                    WakerEffect::Wake(model.waiters[i].1.waker->Some_0),
                )
            &&& effects.wakers.len() <= count
        }),
{
    let observed = model.binding_observed(binding);
    let after = model.bound(binding);
    let effects = model.bind_effects(binding);
    let count = model.waiters.len();
    let history = observed.slot_history(count);
    assert(history =~= observed.promoted_envelopes(count));
    if count > 0 {
        assert(model.waiters[count - 1].1.is_waiting());
        assert(history.last() == observed.promoted_envelope(count - 1));
    }
    assert forall|i: int| #![trigger effects.displaced[i]] 0 <= i < count - 1 implies
        effects.displaced[i].message == model.waiters[i].1.outcome->Waiting_message by {
        assert(model.waiters[i].1.is_waiting());
        assert(effects.displaced[i] == observed.promoted_envelope(i));
    }
    assert(observed.waiters.take(count as int) =~= observed.waiters);
    lemma_wakes_cover(observed.waiters);
    assert forall|i: int| #![trigger model.waiters[i]]
        0 <= i < count && model.waiters[i].1.waker is Some implies effects.wakers.contains(
        WakerEffect::Wake(model.waiters[i].1.waker->Some_0),
    ) by {
        assert(model.waiters[i].1.is_waiting());
        assert(observed.waiters[i].1.waker == model.waiters[i].1.waker);
    }
}

/// What a mailbox lets bind: a configured one that no incarnation holds, with
/// the unclaimed token of its current permit. Closing always leaves such a
/// mailbox, binding never does.
pub proof fn law_a_permit_binds_once<M>(
    model: MailboxModel<M>,
    binding: Binding,
    token: MailboxBindToken,
)
    requires
        model.wf(),
        model.permit < u64::MAX,
    ensures
        model.kind is None ==> model.bind_refusal(token) == Some(BindRefusal::NotConfigured),
        model.kind is Some && (model.phase is Bound || model.phase is Frozen)
            ==> model.bind_refusal(token) == Some(BindRefusal::StillBound),
        model.kind is Some && model.phase is Unbound && (token@.0 != model.serial || token@.1
            != model.permit || model.permit_claimed) ==> model.bind_refusal(token) == Some(
            BindRefusal::StaleToken,
        ),
        model.kind is Some && model.phase is Unbound && token@.0 == model.serial && token@.1
            == model.permit && !model.permit_claimed ==> model.bind_refusal(token) is None,
        model.phase is Unbound && model.bind_refusal(token) is None ==> {
            &&& model.bound(binding).bind_refusal(token) is Some
            &&& model.bound(binding).closed().bind_refusal(token) is Some
        },
        model.claimable(token) <==> token@.0 == model.serial && token@.1 == model.permit
            && !model.permit_claimed,
        model.kind is Some && token@.0 == model.serial && token@.1 == model.permit + 1
            ==> model.closed().bind_refusal(token) is None,
{
}

/// Freezing the bound incarnation stops acceptance and nothing else; it leaves
/// a mailbox that is bound to another incarnation, or to none, as it is.
pub proof fn law_freezing_only_stops_acceptance<M>(
    model: MailboxModel<M>,
    incarnation: Incarnation,
)
    ensures
        match model.phase {
            Phase::Bound(binding) => if binding.incarnation == incarnation {
                model.frozen(incarnation) == (MailboxModel::<M> {
                    phase: Phase::Frozen(binding),
                    ..model
                })
            } else {
                model.frozen(incarnation) == model
            },
            _ => model.frozen(incarnation) == model,
        },
{
}

/// Closing forgets the incarnation's unread messages and issues the next
/// permit; sends stay parked, and accepted or terminated ones can still be
/// observed. A later incarnation can bind and goes on in the same order.
pub proof fn law_closing_keeps_the_senders<M>(model: MailboxModel<M>)
    requires
        model.wf(),
        model.permit < u64::MAX,
    ensures
        ({
            let after = model.closed();
            &&& after.phase is Unbound
            &&& after.permit == model.permit + 1
            &&& !after.permit_claimed
            &&& after.queue.len() == 0
            &&& after.latest is None
            &&& after.waiters == model.waiters
            &&& after.settled == model.settled
            &&& after.detached == model.detached
            &&& after.last_bound == model.last_bound
            &&& after.last_id == model.last_id
            &&& after.accepted == model.accepted
            &&& after.kind == model.kind
            &&& after.actor == model.actor
            &&& after.serial == model.serial
        }),
{
}

/// Termination is final and names the last incarnation bound: nothing stays
/// unread or parked, every parked send is detached, and each one discharged
/// owns its message again.
pub proof fn law_termination_detaches_every_send<M>(model: MailboxModel<M>)
    requires
        model.wf(),
        !(model.phase is Terminal),
    ensures
        ({
            let after = model.terminal();
            let done = after.discharged();
            &&& after.phase == Phase::Terminal(model.last_bound)
            &&& after.queue.len() == 0
            &&& after.latest is None
            &&& after.waiters.len() == 0
            &&& after.detached == model.waiters
            &&& after.settled == model.settled
            &&& after.last_bound == model.last_bound
            &&& after.accepted == model.accepted
            &&& after.last_id == model.last_id
            &&& after.actor == model.actor
            &&& done.phase == after.phase
            &&& done.detached.len() == 0
            &&& done.settled.len() == model.settled.len() + model.waiters.len()
            &&& done.settled.take(model.settled.len() as int) == model.settled
            &&& forall|i: int| #![trigger model.waiters[i]]
                0 <= i < model.waiters.len() ==> {
                    let (id, send) = done.settled[model.settled.len() + i];
                    &&& id == model.waiters[i].0
                    &&& send.waker is None
                    &&& send.outcome == OperationOutcome::Terminated {
                        message: model.waiters[i].1.outcome->Waiting_message,
                        final_incarnation: model.last_bound,
                    }
                }
        }),
{
    let after = model.terminal();
    let done = after.discharged();
    assert(done.settled.take(model.settled.len() as int) =~= model.settled);
    assert forall|i: int| #![trigger model.waiters[i]] 0 <= i < model.waiters.len() implies ({
        let (id, send) = done.settled[model.settled.len() + i];
        &&& id == model.waiters[i].0
        &&& send.waker is None
        &&& send.outcome == OperationOutcome::Terminated {
            message: model.waiters[i].1.outcome->Waiting_message,
            final_incarnation: model.last_bound,
        }
    }) by {
        assert(model.waiters[i].1.is_waiting());
        assert(done.settled[model.settled.len() + i] == after.terminated_rows()[i]);
    }
}

/// Discharging wakes everyone who waits on a detached send, and nobody else.
pub proof fn law_a_discharge_wakes_every_sender<M>(
    model: MailboxModel<M>,
    index: int,
    waker: WakerId,
)
    requires
        0 <= index < model.detached.len(),
        model.detached[index].1.waker == Some(waker),
    ensures
        wakes_of(model.detached).contains(WakerEffect::Wake(waker)),
        wakes_of(model.detached).len() <= model.detached.len(),
{
    lemma_wakes_cover(model.detached);
    assert(model.detached[index].1.waker == Some(waker));
}

/// Withdrawing a parked send gives back its message, with the newest
/// incarnation it saw or else the one there is now, and removes that send
/// alone.
pub proof fn law_a_parked_send_comes_back<M>(
    model: MailboxModel<M>,
    index: int,
    disposition: WithdrawalDisposition,
)
    requires
        model.wf(),
        0 <= index < model.waiters.len(),
    ensures
        ({
            let (id, send) = model.waiters[index];
            let seen = send.outcome->Waiting_newest_observed;
            &&& model.withdrawal(id) == Some(
                WithdrawalOutcome::Withdrawn {
                    message: send.outcome->Waiting_message,
                    observed: match (seen, model.phase) {
                        (Some(incarnation), _) => Some(incarnation),
                        (None, Phase::Bound(binding)) => Some(binding.incarnation),
                        (None, Phase::Frozen(binding)) => Some(binding.incarnation),
                        _ => None,
                    },
                },
            )
            &&& model.without(id) == (MailboxModel::<M> {
                waiters: model.waiters.remove(index),
                ..model
            })
            &&& send.waker is None ==> model.withdrawal_wakers(id, disposition).len() == 0
            &&& send.waker matches Some(waker) ==> model.withdrawal_wakers(id, disposition)
                == seq![
                match disposition {
                    WithdrawalDisposition::Inline => WakerEffect::DropInline(waker),
                    WithdrawalDisposition::Isolated => WakerEffect::Dispose(waker),
                },
            ]
        }),
{
    assert(model.waiters[index].1.is_waiting());
    lemma_index_is_unique(model.waiters, index);
}

/// Withdrawing a decided send reports the decision, with the message where it
/// was not accepted, and removes that send alone.
pub proof fn law_a_decided_send_reports_its_decision<M>(model: MailboxModel<M>, index: int)
    requires
        model.wf(),
        0 <= index < model.settled.len(),
    ensures
        ({
            let (id, send) = model.settled[index];
            &&& match send.outcome {
                OperationOutcome::Accepted(incarnation) => model.withdrawal(id) == Some(
                    WithdrawalOutcome::<M>::Accepted(incarnation),
                ),
                OperationOutcome::Terminated { message, final_incarnation } => model.withdrawal(id)
                    == Some(
                    WithdrawalOutcome::Terminated { message, observed: final_incarnation },
                ),
                _ => false,
            }
            &&& model.without(id) == (MailboxModel::<M> {
                settled: model.settled.remove(index),
                ..model
            })
        }),
{
    let id = model.settled[index].0;
    lemma_index_is_unique(model.settled, index);
    assert(model.settled[index].1.outcome is Accepted || model.settled[index].1.outcome
        is Terminated);
    if has_key(model.waiters, id) {
        let w = index_of(model.waiters, id);
        assert(model.settled[index].0 < model.waiters[w].0);
    }
    if has_key(model.detached, id) {
        let d = index_of(model.detached, id);
        assert(model.settled[index].0 < model.detached[d].0);
    }
}

/// Polling a parked send with a waker registers that waker for it and leaves
/// every other send, and every message, alone; polling without one changes
/// nothing.
pub proof fn law_polling_registers_the_waker<M>(model: MailboxModel<M>, index: int, waker: WakerId)
    requires
        model.wf(),
        0 <= index < model.waiters.len(),
    ensures
        ({
            let (id, send) = model.waiters[index];
            &&& model.polled(id, Some(waker)) == (MailboxModel::<M> {
                waiters: model.waiters.update(
                    index,
                    (id, SendOperation { outcome: send.outcome, waker: Some(waker) }),
                ),
                ..model
            })
            &&& model.polled(id, None) == model
        }),
{
    let id = model.waiters[index].0;
    lemma_index_is_unique(model.waiters, index);
    assert(model.waiters[index].1.is_waiting());
    assert(model.polled(id, None).waiters =~= model.waiters);
}

/// A send that a termination has detached but not yet discharged still waits:
/// polling it registers the waker, withdrawing it gives its message back, and
/// no other send is touched.
pub proof fn law_a_detached_send_still_waits<M>(
    model: MailboxModel<M>,
    index: int,
    waker: WakerId,
    disposition: WithdrawalDisposition,
)
    requires
        model.wf(),
        0 <= index < model.detached.len(),
    ensures
        ({
            let (id, send) = model.detached[index];
            let seen = send.outcome->Waiting_newest_observed;
            &&& model.polled(id, Some(waker)) == (MailboxModel::<M> {
                detached: model.detached.update(
                    index,
                    (id, SendOperation { outcome: send.outcome, waker: Some(waker) }),
                ),
                ..model
            })
            &&& model.polled(id, None) == model
            &&& model.withdrawal(id) == Some(
                WithdrawalOutcome::Withdrawn {
                    message: send.outcome->Waiting_message,
                    observed: seen,
                },
            )
            &&& model.without(id) == (MailboxModel::<M> {
                detached: model.detached.remove(index),
                ..model
            })
            &&& send.waker is None ==> model.withdrawal_wakers(id, disposition).len() == 0
            &&& send.waker matches Some(waker) ==> model.withdrawal_wakers(id, disposition)
                == seq![
                match disposition {
                    WithdrawalDisposition::Inline => WakerEffect::DropInline(waker),
                    WithdrawalDisposition::Isolated => WakerEffect::Dispose(waker),
                },
            ]
        }),
{
    let id = model.detached[index].0;
    lemma_index_is_unique(model.detached, index);
    assert(model.detached[index].1.is_waiting());
    assert(model.phase is Terminal);
    assert(!has_key(model.waiters, id));
    assert(model.polled(id, None).detached =~= model.detached);
}

/// One poll of a send reports its decision, and otherwise waits: with the
/// waker offered, or with the caller's own where that is registered already.
/// The waker a poll has no more use for is destroyed.
pub proof fn law_a_poll_reports_the_decision_or_waits<M>(
    send: SendOperation<M>,
    offered: Option<WakerId>,
    current: WakerId,
)
    requires
        !(send.outcome is Retired),
    ensures
        ({
            let result = send.poll_result(offered, current);
            let drops = send.poll_drops(offered);
            match send.outcome {
                OperationOutcome::Accepted(incarnation) => {
                    &&& result == OperationPoll::<M>::Accepted(incarnation)
                    &&& send.after_poll(offered) == send
                    &&& offered matches Some(unused) ==> drops == seq![
                        WakerEffect::DropInline(unused),
                    ]
                },
                OperationOutcome::Terminated { message, final_incarnation } => {
                    &&& result == OperationPoll::Terminated { message, final_incarnation }
                    &&& send.after_poll(offered).outcome is Retired
                    &&& offered matches Some(unused) ==> drops == seq![
                        WakerEffect::DropInline(unused),
                    ]
                },
                _ => {
                    &&& offered matches Some(waker) ==> {
                        &&& result is Pending
                        &&& send.after_poll(offered) == (SendOperation::<M> {
                            waker: Some(waker),
                            ..send
                        })
                        &&& send.waker is None ==> drops.len() == 0
                        &&& send.waker matches Some(stale) ==> drops == seq![
                            WakerEffect::DropInline(stale),
                        ]
                    }
                    &&& offered is None ==> send.after_poll(offered) == send && drops.len() == 0
                    &&& offered is None && send.waker == Some(current) ==> result is Pending
                    &&& offered is None && send.waker != Some(current) ==> result
                        is NeedsWakerClone
                },
            }
        }),
{
}

/// A flush does everything that is owed, once: watchers are told before any
/// message is disposed of, isolated messages leave before a sender wakes, and
/// messages destroyed in place are destroyed last.
pub proof fn law_a_flush_does_all_that_is_owed<M>(effects: EffectsModel<M>)
    ensures
        ({
            let steps = effects.flush_steps();
            let told: int = if effects.pulse {
                1
            } else {
                0
            };
            let woken: int = if effects.wakers.len() > 0 {
                1
            } else {
                0
            };
            let gone: int = if effects.displaced.len() > 0 {
                1
            } else {
                0
            };
            &&& steps.len() == told + woken + gone
            &&& effects.pulse ==> steps[0] is Pulse
            &&& effects.wakers.len() > 0 ==> steps[if effects.isolate_displaced {
                told + gone
            } else {
                told
            }] == FlushStepModel::<M>::Wakers(effects.wakers)
            &&& effects.displaced.len() > 0 ==> if effects.isolate_displaced {
                steps[told] == FlushStepModel::Dispose(effects.displaced)
            } else {
                steps[told + woken] == FlushStepModel::DropInline(effects.displaced)
            }
            &&& effects.is_empty() <==> steps.len() == 0
        }),
{
}

/// Receiving live, the bound incarnation gets the oldest unread message up to
/// its limit, from a queue and from a latest-value slot alike, and that message
/// alone leaves the mailbox where nobody is parked.
pub proof fn law_a_live_receive_yields_the_oldest_message<M>(
    cell: &mut MailboxCell<M>,
    binding: Binding,
    limit: AcceptedSequence,
    outcome: (Option<M>, MailboxEffects<M>),
)
    requires
        old(cell)@.wf(),
        old(cell)@.accepted < u64::MAX,
        old(cell)@.phase == Phase::Bound(binding),
        call_ensures(
            MailboxCell::<M>::receive,
            (cell, binding.incarnation, ReceiveMode::LiveThrough(limit)),
            outcome,
        ),
    ensures
        ({
            let before = old(cell)@;
            let after = final(cell)@;
            &&& before.queue.len() > 0 && before.queue[0].accepted_sequence.0 <= limit.0 ==> {
                &&& outcome.0 == Some(before.queue[0].message)
                &&& before.waiters.len() == 0 ==> after.queue == before.queue.skip(1)
            }
            &&& before.latest matches Some(slot) ==> (slot.accepted_sequence.0 <= limit.0 ==> {
                &&& outcome.0 == Some(slot.message)
                &&& after.latest is None
            })
            &&& before.queue.len() > 0 && before.queue[0].accepted_sequence.0 > limit.0
                ==> outcome.0 is None && after == before
            &&& before.latest matches Some(slot) ==> (slot.accepted_sequence.0 > limit.0
                ==> outcome.0 is None && after == before)
            &&& before.queue.len() == 0 && before.latest is None ==> outcome.0 is None && after
                == before
        }),
{
    law_a_read_takes_only_what_it_yields(
        old(cell)@,
        binding.incarnation,
        ReceiveMode::LiveThrough(limit),
    );
}

/// A message accepted by an empty mailbox, of either kind, is what the next live
/// receive yields.
pub proof fn law_a_message_sent_is_received<M>(
    sent: &mut MailboxCell<M>,
    received: &mut MailboxCell<M>,
    binding: Binding,
    message: M,
    accepted: Incarnation,
    send_effects: MailboxEffects<M>,
    outcome: (Option<M>, MailboxEffects<M>),
)
    requires
        old(sent)@.wf(),
        old(sent)@.accepted < u64::MAX - 1,
        old(sent)@.phase == Phase::Bound(binding),
        old(sent)@.queue.len() == 0,
        old(sent)@.waiters.len() == 0,
        call_ensures(
            MailboxCell::<M>::try_send,
            (sent, message),
            (Ok::<Incarnation, SendError<M>>(accepted), send_effects),
        ),
        *old(received) == *final(sent),
        call_ensures(
            MailboxCell::<M>::receive,
            (
                received,
                binding.incarnation,
                ReceiveMode::LiveThrough(AcceptedSequence((old(sent)@.accepted + 1) as u64)),
            ),
            outcome,
        ),
    ensures
        accepted == binding.incarnation,
        outcome.0 == Some(message),
{
    law_acceptance_adds_the_newest_message(old(sent)@, binding, message);
    law_a_live_read_yields_the_oldest_message(
        old(received)@,
        binding,
        AcceptedSequence((old(sent)@.accepted + 1) as u64),
    );
}

} // verus!
