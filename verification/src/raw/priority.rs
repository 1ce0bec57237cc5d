//! What an incarnation is handed next: which source goes before which, said of
//! the messages, completions and timers there are.

use crate::identity::Incarnation;
use crate::mailbox::delivery::{
    law_a_live_read_yields_the_oldest_message, law_a_read_takes_only_what_it_yields,
};
use crate::mailbox::model::{no_effects, EffectsModel, MailboxModel};
use crate::mailbox::state::{AcceptedSequence, Envelope, Phase, ReceiveMode};
use crate::raw::context::{selected, RawContext};
use crate::raw::disposal::PanicPayload;
use crate::raw::latch::is_set;
use crate::raw::resources::{Cleanup, QueuedEvent, RawModel};
use crate::raw::select::{
    cancelled_in, leading, retracted_from, BatchModel, BatchPhaseModel, Found, TurnEnd,
};
use crate::raw::timers::{
    law_a_fire_takes_each_due_timer_once, Armed, ArmingOrder, TimerEntry, TimerMessage,
};
use crate::time::Instant;
use vstd::prelude::*;

verus! {

/// Whether the clock has reached the deadline of a timer.
pub open spec fn due_by<M, C, W>(owned: RawModel<M, C, W>, now: Instant) -> bool {
    exists|pair: Armed| #[trigger] owned.timers.armed.contains(pair) && pair.0@ <= now@
}

/// The oldest accepted message that `incarnation` has not read.
pub open spec fn oldest_unread<M>(mailbox: MailboxModel<M>, incarnation: Incarnation) -> Option<
    Envelope<M>,
> {
    match mailbox.phase {
        Phase::Bound(binding) => if binding.incarnation != incarnation {
            None
        } else if mailbox.queue.len() > 0 {
            Some(mailbox.queue[0])
        } else {
            mailbox.latest
        },
        _ => None,
    }
}

/// How many items at the front satisfy a predicate: all those before the first
/// that does not.
proof fn lemma_leading<T>(items: Seq<T>, holds: spec_fn(T) -> bool, count: nat)
    requires
        count <= items.len(),
        forall|i: int| 0 <= i < count ==> holds(#[trigger] items[i]),
        count < items.len() ==> !holds(items[count as int]),
    ensures
        leading(items, holds) == count,
    decreases count,
{
    if count > 0 {
        assert(holds(items[0]));
        let rest = items.skip(1);
        assert forall|i: int| 0 <= i < count - 1 implies holds(#[trigger] rest[i]) by {
            assert(rest[i] == items[i + 1]);
        }
        lemma_leading(rest, holds, (count - 1) as nat);
    }
}

proof fn lemma_reads_oldest<M>(
    mailbox: MailboxModel<M>,
    incarnation: Incarnation,
    through: AcceptedSequence,
)
    requires
        mailbox.wf(),
    ensures
        ({
            let read = mailbox.received(
                incarnation,
                ReceiveMode::LiveThrough(through),
            );
            match oldest_unread(mailbox, incarnation) {
                Some(oldest) => if oldest.accepted_sequence.0 <= through.0 {
                    read == Some(oldest)
                } else {
                    read is None
                },
                None => read is None,
            }
        }),
        oldest_unread(mailbox, incarnation) matches Some(oldest) ==> oldest.accepted_sequence.0
            <= mailbox.accepted,
{
    if let Phase::Bound(binding) = mailbox.phase {
        law_a_live_read_yields_the_oldest_message(mailbox, binding, through);
        if mailbox.queue.len() > 0 {
            assert(mailbox.queue[0].accepted_sequence.0 <= mailbox.accepted);
        }
    }
}

/// A selection captures what is ready as it begins: every accepted message,
/// every queued completion and, where a deadline has come, every timer it has
/// come for and every queued continuation. The timers captured stop being
/// armed. One in which timers fired already captures nothing more.
pub proof fn law_a_selection_captures_what_is_ready<M, C, W>(
    owned: RawModel<M, C, W>,
    accepted: AcceptedSequence,
    now: Instant,
)
    requires
        owned.wf(),
    ensures
        ({
            let begun = owned.begun(accepted, now);
            let fresh = BatchModel {
                phase: BatchPhaseModel::Steady { mailbox_delivered: false },
                mailbox_through: accepted,
                offloads_remaining: owned.events.len(),
            };
            let widened = BatchModel {
                phase: BatchPhaseModel::Fired {
                    armings: owned.timers.due_orders(now),
                    continuations_remaining: owned.continuations.len(),
                },
                mailbox_through: accepted,
                offloads_remaining: owned.events.len(),
            };
            let fired = owned.batch matches Some(batch) && batch.phase is Fired;
            &&& fired ==> begun == owned
            &&& !fired && due_by(owned, now) ==> begun == (RawModel::<M, C, W> {
                batch: Some(widened),
                timers: owned.timers.after_due(now),
                ..owned
            })
            &&& !due_by(owned, now) && owned.batch is None ==> begun == (RawModel::<M, C, W> {
                batch: Some(fresh),
                ..owned
            })
            &&& !due_by(owned, now) && owned.batch is Some ==> begun == owned
        }),
{
}

/// The actor's own oldest continuation goes first, unless the last thing handed
/// out was one. Only that continuation leaves; the mailbox is not touched.
pub proof fn law_a_continuation_leads<M, C, W>(
    owned: RawModel<M, C, W>,
    mailbox: MailboxModel<M>,
    incarnation: Incarnation,
    latches: Seq<bool>,
    now: Instant,
)
    requires
        owned.wf(),
        owned.batch matches Some(batch) ==> (
        batch.phase matches BatchPhaseModel::Fired { continuations_remaining, .. }
            ==> continuations_remaining > 0),
        owned.continuations.len() > 0,
        !owned.last_delivery_was_continuation,
    ensures
        ({
            let turn = owned.turn(mailbox, incarnation, latches, now);
            &&& turn.end == TurnEnd::<M, C>::Continuation(owned.continuations[0])
            &&& turn.owned.continuations == owned.continuations.skip(1)
            &&& turn.owned.last_delivery_was_continuation
            &&& turn.owned.events == owned.events
            &&& turn.owned.offloads == owned.offloads
            &&& turn.mailbox == mailbox
            &&& turn.effects == no_effects::<M>()
            &&& turn.cleanup.len() == 0
        }),
{
}

/// Mail goes before completions and timers: a selection that begins with no
/// continuation to lead hands out the oldest unread message, reads exactly
/// that, and remembers that the last thing handed out was no continuation.
pub proof fn law_mail_goes_before_completions<M, C, W>(
    owned: RawModel<M, C, W>,
    mailbox: MailboxModel<M>,
    incarnation: Incarnation,
    latches: Seq<bool>,
    now: Instant,
)
    requires
        owned.wf(),
        mailbox.wf(),
        owned.batch is None,
        owned.continuations.len() == 0 || owned.last_delivery_was_continuation,
        oldest_unread(mailbox, incarnation) is Some,
    ensures
        ({
            let turn = owned.turn(mailbox, incarnation, latches, now);
            let mode = ReceiveMode::LiveThrough(
                AcceptedSequence(mailbox.accepted),
            );
            &&& turn.end == TurnEnd::<M, C>::Mail(oldest_unread(mailbox, incarnation)->Some_0)
            &&& turn.mailbox == mailbox.after_receive(incarnation, mode)
            &&& turn.effects == mailbox.receive_effects(incarnation, mode)
            &&& turn.owned.continuations == owned.continuations
            &&& turn.owned.events == owned.events
            &&& turn.owned.offloads == owned.offloads
            &&& !turn.owned.last_delivery_was_continuation
            &&& turn.cleanup.len() == 0
            &&& !due_by(owned, now) ==> (turn.owned.batch matches Some(batch) && batch.phase == (
            BatchPhaseModel::Steady { mailbox_delivered: true }))
        }),
{
    lemma_reads_oldest(mailbox, incarnation, AcceptedSequence(mailbox.accepted));
}

/// A fired selection hands out the whole captured mailbox before anything else
/// but the leading continuation, one message at a time; a steady one takes a
/// single message.
pub proof fn law_a_selection_in_progress_reads_up_to_its_cut<M, C, W>(
    owned: RawModel<M, C, W>,
    mailbox: MailboxModel<M>,
    incarnation: Incarnation,
    latches: Seq<bool>,
    now: Instant,
)
    requires
        owned.wf(),
        mailbox.wf(),
        owned.batch is Some,
        owned.batch->Some_0.phase is Fired || !due_by(owned, now),
        owned.continuations.len() == 0 || owned.last_delivery_was_continuation,
        oldest_unread(mailbox, incarnation) is Some,
    ensures
        ({
            let turn = owned.turn(mailbox, incarnation, latches, now);
            let batch = owned.batch->Some_0;
            let oldest = oldest_unread(mailbox, incarnation)->Some_0;
            let readable = oldest.accepted_sequence.0 <= batch.mailbox_through.0;
            let spent = batch.phase == (BatchPhaseModel::Steady { mailbox_delivered: true });
            &&& readable && !spent ==> turn.end == TurnEnd::<M, C>::Mail(oldest)
            &&& turn.end is Mail ==> readable && !spent
            &&& turn.end is Mail && batch.phase is Fired ==> turn.owned.batch == owned.batch
        }),
{
    lemma_reads_oldest(mailbox, incarnation, owned.batch->Some_0.mailbox_through);
}

/// With no continuation to lead and nothing to read, a selection hands out the
/// oldest queued completion whose offload was not cancelled; those cancelled
/// before it are destroyed, and those after it stay queued.
pub proof fn law_the_oldest_live_completion_is_next<M, C, W>(
    owned: RawModel<M, C, W>,
    mailbox: MailboxModel<M>,
    incarnation: Incarnation,
    latches: Seq<bool>,
    now: Instant,
    place: nat,
)
    requires
        owned.wf(),
        mailbox.wf(),
        owned.batch is None,
        owned.continuations.len() == 0 || owned.last_delivery_was_continuation,
        oldest_unread(mailbox, incarnation) is None,
        place < owned.events.len(),
        !is_set(latches, owned.events[place as int].cancellation),
        forall|i: int|
            0 <= i < place ==> is_set(latches, (#[trigger] owned.events[i]).cancellation),
    ensures
        ({
            let turn = owned.turn(mailbox, incarnation, latches, now);
            &&& turn.end == TurnEnd::<M, C>::Completion(owned.events[place as int])
            &&& turn.owned.events == owned.events.skip(place as int + 1)
            &&& turn.owned.continuations == owned.continuations
            &&& turn.mailbox == mailbox
            &&& turn.cleanup.len() == place
            &&& forall|i: int|
                0 <= i < place ==> #[trigger] turn.cleanup[i] == Cleanup::<M, C, W>::Completion(
                    owned.events[i],
                )
        }),
{
    lemma_reads_oldest(mailbox, incarnation, AcceptedSequence(mailbox.accepted));
    let captured = owned.events.take(owned.events.len() as int);
    assert(captured =~= owned.events);
    lemma_leading(captured, cancelled_in(latches), place);
}

/// A second continuation in a row is handed out where there is nothing to read
/// and no completion queued; it goes before the timers whose deadline has come.
pub proof fn law_a_lone_continuation_follows_another<M, C, W>(
    owned: RawModel<M, C, W>,
    mailbox: MailboxModel<M>,
    incarnation: Incarnation,
    latches: Seq<bool>,
    now: Instant,
)
    requires
        owned.wf(),
        mailbox.wf(),
        owned.batch is None,
        owned.continuations.len() > 0,
        oldest_unread(mailbox, incarnation) is None,
        owned.events.len() == 0,
    ensures
        ({
            let turn = owned.turn(mailbox, incarnation, latches, now);
            &&& turn.end == TurnEnd::<M, C>::Continuation(owned.continuations[0])
            &&& turn.owned.continuations == owned.continuations.skip(1)
            &&& turn.owned.last_delivery_was_continuation
            &&& turn.mailbox == mailbox
            &&& turn.cleanup.len() == 0
        }),
{
    lemma_reads_oldest(mailbox, incarnation, AcceptedSequence(mailbox.accepted));
    let captured = owned.events.take(0);
    lemma_leading(captured, cancelled_in(latches), 0);
    assert(owned.events.skip(0) =~= owned.events);
}

/// Timers go last: where nothing else is ready and deadlines have come, the
/// soonest of their timers is handed out: a one-shot leaves the store, and an
/// interval is told as a tick, to be copied and armed again.
pub proof fn law_fired_timers_go_last<M, C, W>(
    owned: RawModel<M, C, W>,
    mailbox: MailboxModel<M>,
    incarnation: Incarnation,
    latches: Seq<bool>,
    now: Instant,
)
    requires
        owned.wf(),
        mailbox.wf(),
        owned.batch is None,
        owned.continuations.len() == 0,
        oldest_unread(mailbox, incarnation) is None,
        owned.events.len() == 0,
        due_by(owned, now),
    ensures
        ({
            let turn = owned.turn(mailbox, incarnation, latches, now);
            let first = owned.timers.due_orders(now)[0];
            let entry = owned.timers.entries[first.0];
            &&& owned.timers.due_orders(now).len() > 0
            &&& entry.period is None ==> {
                &&& turn.end == TurnEnd::<M, C>::Timer(entry)
                &&& !turn.owned.timers.entries.dom().contains(first.0)
                &&& !turn.owned.last_delivery_was_continuation
            }
            &&& entry.period is Some ==> {
                &&& turn.end == TurnEnd::<M, C>::Tick(first)
                &&& turn.owned.timers.entries.dom().contains(first.0)
                &&& turn.owned.ticks(first)
            }
            &&& turn.mailbox == mailbox
        }),
{
    lemma_reads_oldest(mailbox, incarnation, AcceptedSequence(mailbox.accepted));
    law_a_fire_takes_each_due_timer_once(owned.timers, now);
    let begun = owned.begun(AcceptedSequence(mailbox.accepted), now);
    let orders = owned.timers.due_orders(now);
    let captured = begun.events.take(0);
    lemma_leading(captured, cancelled_in(latches), 0);
    assert(orders.len() > 0);
    assert(owned.timers.entries.dom().contains(orders[0].0));
    let late = begun.past_events(0);
    lemma_leading(orders, retracted_from(late.timers), 0);
    assert(orders.skip(0) =~= orders);
}

/// A selection in progress that has nothing left to read hands out the oldest
/// captured completion whose offload was not cancelled.
pub proof fn law_captured_completions_come_in_order<M, C, W>(
    owned: RawModel<M, C, W>,
    mailbox: MailboxModel<M>,
    incarnation: Incarnation,
    latches: Seq<bool>,
    now: Instant,
    place: nat,
)
    requires
        owned.wf(),
        mailbox.wf(),
        owned.batch is Some,
        owned.batch->Some_0.phase is Fired || !due_by(owned, now),
        owned.continuations.len() == 0 || owned.last_delivery_was_continuation,
        owned.batch->Some_0.phase == (BatchPhaseModel::Steady { mailbox_delivered: true }) || (
        oldest_unread(mailbox, incarnation) matches Some(oldest) ==> oldest.accepted_sequence.0
            > owned.batch->Some_0.mailbox_through.0),
        place < owned.batch->Some_0.offloads_remaining,
        !is_set(latches, owned.events[place as int].cancellation),
        forall|i: int|
            0 <= i < place ==> is_set(latches, (#[trigger] owned.events[i]).cancellation),
    ensures
        ({
            let turn = owned.turn(mailbox, incarnation, latches, now);
            &&& turn.end == TurnEnd::<M, C>::Completion(owned.events[place as int])
            &&& turn.owned.events == owned.events.skip(place as int + 1)
            &&& turn.mailbox == mailbox
            &&& turn.cleanup.len() == place
        }),
{
    let batch = owned.batch->Some_0;
    lemma_reads_oldest(mailbox, incarnation, batch.mailbox_through);
    let captured = owned.events.take(batch.offloads_remaining as int);
    assert forall|i: int| 0 <= i < place implies cancelled_in::<C>(latches)(
        #[trigger] captured[i],
    ) by {
        assert(captured[i] == owned.events[i]);
    }
    lemma_leading(captured, cancelled_in(latches), place);
}

/// A fired selection with nothing else left hands out its timers in the order
/// captured, passing over those retracted meanwhile; continuations queued since
/// wait. One that has no timer left either is over.
pub proof fn law_captured_timers_come_in_order<M, C, W>(
    owned: RawModel<M, C, W>,
    mailbox: MailboxModel<M>,
    incarnation: Incarnation,
    latches: Seq<bool>,
    now: Instant,
    armings: Seq<ArmingOrder>,
    place: nat,
)
    requires
        owned.wf(),
        mailbox.wf(),
        owned.batch is Some,
        owned.batch->Some_0.phase == (BatchPhaseModel::Fired {
            armings,
            continuations_remaining: 0,
        }),
        owned.batch->Some_0.offloads_remaining == 0,
        oldest_unread(mailbox, incarnation) matches Some(oldest) ==> oldest.accepted_sequence.0
            > owned.batch->Some_0.mailbox_through.0,
        place <= armings.len(),
        forall|i: int|
            0 <= i < place ==> !owned.timers.entries.dom().contains((#[trigger] armings[i]).0),
        place < armings.len() ==> owned.timers.entries.dom().contains(armings[place as int].0),
    ensures
        ({
            let turn = owned.turn(mailbox, incarnation, latches, now);
            &&& place < armings.len() ==> {
                let order = armings[place as int];
                let entry = owned.timers.entries[order.0];
                &&& entry.period is None ==> {
                    &&& turn.end == TurnEnd::<M, C>::Timer(entry)
                    &&& turn.owned.batch matches Some(batch) && batch.armings() == armings.skip(
                        place as int + 1,
                    )
                    &&& !turn.owned.timers.entries.dom().contains(order.0)
                    &&& !turn.owned.last_delivery_was_continuation
                }
                &&& entry.period is Some ==> turn.end == TurnEnd::<M, C>::Tick(order)
                    && turn.owned.ticks(order)
            }
            &&& place == armings.len() ==> (turn.end is Again || turn.end is Idle)
                && turn.owned.batch is None
            &&& turn.owned.continuations == owned.continuations
            &&& turn.mailbox == mailbox
        }),
{
    let batch = owned.batch->Some_0;
    lemma_reads_oldest(mailbox, incarnation, batch.mailbox_through);
    lemma_leading(owned.events.take(0), cancelled_in(latches), 0);
    let late = owned.past_events(0);
    lemma_leading(armings, retracted_from(late.timers), place);
    if place < armings.len() {
        assert(armings.skip(place as int)[0] == armings[place as int]);
    }
}

/// A selection that finds nothing has nothing: no continuation, nothing to
/// read, no completion and no deadline come. And where there is nothing, it
/// says so and changes nothing that is owned.
pub proof fn law_idle_means_nothing_is_ready<M, C, W>(
    owned: RawModel<M, C, W>,
    mailbox: MailboxModel<M>,
    incarnation: Incarnation,
    latches: Seq<bool>,
    now: Instant,
)
    requires
        owned.wf(),
        mailbox.wf(),
        owned.batch is None,
    ensures
        ({
            let turn = owned.turn(mailbox, incarnation, latches, now);
            let nothing = owned.continuations.len() == 0 && oldest_unread(mailbox, incarnation)
                is None && owned.events.len() == 0 && !due_by(owned, now);
            &&& turn.end is Idle ==> owned.continuations.len() == 0 && oldest_unread(
                mailbox,
                incarnation,
            ) is None && turn.owned.events.len() == 0 && !turn.owned.timer_is_due(now)
            &&& nothing ==> {
                &&& turn.end is Idle
                &&& turn.owned == owned
                &&& turn.mailbox == mailbox
                &&& turn.cleanup.len() == 0
                &&& turn.effects == no_effects::<M>()
            }
        }),
{
    lemma_reads_oldest(mailbox, incarnation, AcceptedSequence(mailbox.accepted));
    let begun = owned.begun(AcceptedSequence(mailbox.accepted), now);
    let turn = owned.turn(mailbox, incarnation, latches, now);
    if owned.events.len() == 0 {
        lemma_leading(begun.events.take(0), cancelled_in(latches), 0);
        assert(owned.events.skip(0) =~= owned.events);
    }
    if turn.end is Idle && due_by(owned, now) {
        assert(begun.batch->Some_0.admits_continuation() <==> owned.continuations.len() > 0);
    }
}

/// Whatever selection is in progress, it says that nothing is ready only where
/// no continuation and no completion is queued, no deadline has come and no
/// message was accepted behind its cut; and it asks for another turn only where
/// one of those is there, or where it spared its mailbox.
pub proof fn law_idle_is_not_said_while_work_is_ready<M, C, W>(
    owned: RawModel<M, C, W>,
    mailbox: MailboxModel<M>,
    incarnation: Incarnation,
    latches: Seq<bool>,
    now: Instant,
)
    requires
        owned.wf(),
    ensures
        ({
            let turn = owned.turn(mailbox, incarnation, latches, now);
            let batch = owned.begun(AcceptedSequence(mailbox.accepted), now).batch->Some_0;
            let ready = turn.owned.continuations.len() > 0 || turn.owned.events.len() > 0 || due_by(
                turn.owned,
                now,
            ) || mailbox.accepted > batch.mailbox_through.0 || batch.phase == (
            BatchPhaseModel::Steady { mailbox_delivered: true });
            &&& turn.end is Idle ==> !ready && turn.owned.batch is None
            &&& turn.end is Again ==> ready && turn.owned.batch is None
        }),
{
    let turn = owned.turn(mailbox, incarnation, latches, now);
    let begun = owned.begun(AcceptedSequence(mailbox.accepted), now);
    let batch = begun.batch->Some_0;
    let captured = begun.events.take(batch.offloads_remaining as int);
    let late = begun.past_events(leading(captured, cancelled_in(latches)));
    assert(due_by(turn.owned, now) == turn.owned.timer_is_due(now));
    assert(late.batch->Some_0.phase == batch.phase);
    assert(batch.budget_exhausted() <==> batch.phase == (BatchPhaseModel::Steady {
        mailbox_delivered: true,
    }));
    if turn.end is Again || turn.end is Idle {
        assert(turn.owned.events == late.events);
        assert(turn.owned.timers == late.timers);
        assert(turn.owned.continuations == late.continuations);
    }
}

/// A panic kept from cleanup is resumed before anything is handed out, and is
/// then no longer kept; with none, the selection is that of what is owned less
/// the offloads to forget.
pub proof fn law_a_kept_panic_comes_first<M, C, W>(
    owned: RawModel<M, C, W>,
    mailbox: MailboxModel<M>,
    incarnation: Incarnation,
    latches: Seq<bool>,
    now: Instant,
)
    ensures
        ({
            let next = owned.selects(mailbox, incarnation, latches, now);
            &&& owned.panic matches Some(payload) ==> {
                &&& next.end == TurnEnd::<M, C>::Resume(payload)
                &&& next.owned.panic is None
                &&& next.mailbox == mailbox
                &&& next.owned.continuations == owned.continuations
                &&& next.owned.events == owned.events
                &&& next.owned.timers == owned.timers
                &&& next.owned.batch == owned.batch
            }
            &&& owned.panic is None ==> {
                let first = owned.reclaimed(latches).turn(mailbox, incarnation, latches, now);
                &&& !(first.end is Again) || first.cleanup.len() > 0 ==> next == first
                &&& first.end is Again && first.cleanup.len() == 0 ==> next == first.owned.turn(
                    mailbox,
                    incarnation,
                    latches,
                    now,
                )
            }
        }),
{
}

/// What is handed out is what was found: a continuation itself, the message in
/// an envelope, the builder of a completion, the message of a one-shot timer,
/// the arming of an interval.
pub proof fn law_what_is_found_is_handed_out<M, C>(
    message: M,
    envelope: Envelope<M>,
    event: QueuedEvent<C>,
    entry: TimerEntry<M>,
    order: ArmingOrder,
    payload: PanicPayload,
)
    ensures
        TurnEnd::<M, C>::Continuation(message).found() == Found::<M, C>::Message(message),
        TurnEnd::<M, C>::Mail(envelope).found() == Found::<M, C>::Message(envelope.message),
        TurnEnd::<M, C>::Completion(event).found() == Found::<M, C>::Completion(event.make_message),
        TurnEnd::<M, C>::Timer(entry).found() == Found::<M, C>::Message(
            match entry.message {
                TimerMessage::Once(held) => held,
                TimerMessage::Interval(held) => held,
            },
        ),
        TurnEnd::<M, C>::Tick(order).found() == Found::<M, C>::Tick(order),
        TurnEnd::<M, C>::Again.found() is Again,
        TurnEnd::<M, C>::Idle.found() is Idle,
        TurnEnd::<M, C>::Resume(payload).found() == Found::<M, C>::Resume(payload),
{
}

/// Settling what was found: a built completion and a copied interval end a run
/// of continuations, a copied interval is armed again and leaves the selection,
/// and anything else changes nothing.
pub proof fn law_settling_arms_an_interval_again<M, C, W>(
    owned: RawModel<M, C, W>,
    order: ArmingOrder,
    completion: C,
    message: M,
    now: Instant,
)
    requires
        owned.ticks(order),
    ensures
        owned.settled(Found::<M, C>::Completion(completion), now) == (RawModel::<M, C, W> {
            last_delivery_was_continuation: false,
            ..owned
        }),
        owned.settled(Found::<M, C>::Message(message), now) == owned,
        owned.settled(Found::<M, C>::Idle, now) == owned,
        owned.settled(Found::<M, C>::Again, now) == owned,
        ({
            let after = owned.settled(Found::<M, C>::Tick(order), now);
            &&& !after.last_delivery_was_continuation
            &&& after.timers == owned.timers.delivered(order.0, now)
            &&& after.timers.entries.dom().contains(order.0)
            &&& after.batch matches Some(batch)
            &&& batch.armings() == owned.batch->Some_0.armings().skip(1)
            &&& after.events == owned.events
            &&& after.continuations == owned.continuations
        }),
{
}

/// The message made of what was found is the held one itself, what the builder
/// makes of a completion, or the copy of an interval's own message; nothing is
/// made where nothing was found.
pub proof fn law_a_message_is_made_of_what_was_found<
    M,
    C,
    W,
    F: Fn(&M) -> M,
    B: Fn(C) -> M,
>(owned: RawModel<M, C, W>, found: Found<M, C>, message: M, clone_message: F, build: B)
    requires
        owned.makes(found, message, clone_message, build),
    ensures
        match found {
            Found::Message(held) => message == held,
            Found::Completion(completion) => call_ensures(build, (completion,), message),
            Found::Tick(order) => match owned.timers.entries[order.0].message {
                TimerMessage::Once(held) => call_ensures(clone_message, (&held,), message),
                TimerMessage::Interval(held) => call_ensures(clone_message, (&held,), message),
            },
            _ => false,
        },
{
}

/// An actor that is not stopping receives in order: with no panic kept, no
/// selection in progress and no continuation queued, its next message is the
/// oldest it has not read, whatever completions and timers wait behind it.
pub proof fn law_an_actor_receives_its_oldest_message<M, C, W>(
    before: RawContext<M, C, W>,
    after: RawContext<M, C, W>,
    mailbox: MailboxModel<M>,
    mailbox_after: MailboxModel<M>,
    latches: Seq<bool>,
    latches_after: Seq<bool>,
    now: Instant,
    outcome: (Found<M, C>, EffectsModel<M>),
    cleanup: Seq<Cleanup<M, C, W>>,
)
    requires
        before.resources@.wf(),
        mailbox.wf(),
        mailbox.accepted < u64::MAX,
        before.resources@.panic is None,
        before.resources@.batch is None,
        before.resources@.continuations.len() == 0,
        oldest_unread(mailbox, before.receiver.incarnation) is Some,
        selected(
            before,
            after,
            (mailbox, mailbox_after),
            (latches, latches_after),
            now,
            outcome,
            cleanup,
        ),
    ensures
        outcome.0 == Found::<M, C>::Message(
            oldest_unread(mailbox, before.receiver.incarnation)->Some_0.message,
        ),
        latches_after == latches,
        after.resources@.events == before.resources@.events,
        cleanup.len() == 0,
        mailbox.waiters.len() == 0 && mailbox.queue.len() > 0 ==> mailbox_after.queue
            == mailbox.queue.skip(1),
        mailbox.latest is Some ==> mailbox_after.latest is None,
{
    let kept = before.resources@.reclaimed(latches);
    assert(kept.wf());
    law_mail_goes_before_completions(kept, mailbox, before.receiver.incarnation, latches, now);
    let through = AcceptedSequence(mailbox.accepted);
    lemma_reads_oldest(mailbox, before.receiver.incarnation, through);
    law_a_read_takes_only_what_it_yields(
        mailbox,
        before.receiver.incarnation,
        ReceiveMode::LiveThrough(through),
    );
}

/// How a selection in progress moves: a mailbox delivery spends the budget of a
/// steady one, a continuation counts down a fired one, an arming leaves a fired
/// one from the front.
pub proof fn law_a_selection_counts_what_it_hands_out(
    mailbox_delivered: bool,
    armings: Seq<ArmingOrder>,
    continuations_remaining: nat,
    mailbox_through: AcceptedSequence,
    offloads_remaining: nat,
    count: int,
)
    requires
        0 <= count <= armings.len(),
    ensures
        ({
            let steady = BatchModel {
                phase: BatchPhaseModel::Steady { mailbox_delivered },
                mailbox_through,
                offloads_remaining,
            };
            let fired = BatchModel {
                phase: BatchPhaseModel::Fired { armings, continuations_remaining },
                mailbox_through,
                offloads_remaining,
            };
            &&& BatchModel::steady(mailbox_through, offloads_remaining) == (BatchModel {
                phase: BatchPhaseModel::Steady { mailbox_delivered: false },
                ..steady
            })
            &&& steady.reads_mailbox() <==> !mailbox_delivered
            &&& steady.budget_exhausted() <==> mailbox_delivered
            &&& fired.reads_mailbox()
            &&& !fired.budget_exhausted()
            &&& fired.fired() && !steady.fired()
            &&& steady.admits_continuation()
            &&& fired.admits_continuation() <==> continuations_remaining > 0
            &&& steady.mailed() == (BatchModel {
                phase: BatchPhaseModel::Steady { mailbox_delivered: true },
                ..steady
            })
            &&& fired.mailed() == fired
            &&& steady.continued() == steady
            &&& continuations_remaining > 0 ==> fired.continued() == (BatchModel {
                phase: BatchPhaseModel::Fired {
                    armings,
                    continuations_remaining: (continuations_remaining - 1) as nat,
                },
                ..fired
            })
            &&& fired.armings() == armings
            &&& steady.armings().len() == 0
            &&& fired.past_armings(count).armings() == armings.skip(count)
            &&& fired.past_armings(count) == (BatchModel {
                phase: BatchPhaseModel::Fired {
                    armings: armings.skip(count),
                    continuations_remaining,
                },
                ..fired
            })
        }),
{
}

} // verus!
