//! What holds of ready selection as a whole.

use crate::identity::Incarnation;
use crate::mailbox::model::MailboxModel;
use crate::mailbox::state::{AcceptedSequence, ReceiveMode};
use crate::raw::context::{lemma_cancelled_latches_len, RawContext};
use crate::raw::latch::{is_set, LatchId, LatchTable};
use crate::raw::offload::OffloadResource;
use crate::raw::resources::{all_known, law_freezing_is_final, Cleanup, RawModel, RawResources};
use crate::raw::select::{
    cancelled_in, law_a_fresh_turn_settles, leading, lemma_leading_bounds, retracted_from, TurnEnd,
};
use crate::raw::timers::{law_a_fire_takes_each_due_timer_once, Armed};
use crate::time::Instant;
use vstd::prelude::*;

verus! {

/// Beginning a selection keeps the incarnation consistent.
pub proof fn lemma_begun_wf<M, C, W>(
    owned: RawModel<M, C, W>,
    accepted: AcceptedSequence,
    now: Instant,
)
    requires
        owned.wf(),
    ensures
        owned.begun(accepted, now).batch is Some,
        owned.begun(accepted, now).batch->Some_0.offloads_remaining <= owned.events.len(),
        !owned.timer_is_due(now) ==> owned.begun(accepted, now).timers == owned.timers,
{
    if owned.timer_is_due(now) {
        law_a_fire_takes_each_due_timer_once(owned.timers, now);
    }
}

/// A selection that finds nothing yet says so only where something is to be
/// destroyed first, and it then begins afresh: the next one settles.
pub proof fn law_a_selection_takes_at_most_two_turns<M, C, W>(
    owned: RawModel<M, C, W>,
    mailbox: MailboxModel<M>,
    incarnation: Incarnation,
    latches: Seq<bool>,
    now: Instant,
)
    requires
        owned.wf(),
    ensures
        ({
            let selected = owned.selection(mailbox, incarnation, latches, now);
            selected.end is Again ==> {
                &&& selected.cleanup.len() > 0
                &&& selected.owned.batch is None
                &&& selected.owned.wf()
                &&& !(selected.owned.turn(mailbox, incarnation, latches, now).end is Again)
            }
        }),
{
    let accepted = AcceptedSequence(mailbox.accepted);
    let begun = owned.begun(accepted, now);
    lemma_begun_wf(owned, accepted, now);
    let first = owned.turn(mailbox, incarnation, latches, now);
    let captured = begun.events.take(begun.batch->Some_0.offloads_remaining as int);
    lemma_leading_bounds(captured, cancelled_in(latches));
    if first.end is Again {
        if owned.batch is None {
            law_a_fresh_turn_settles(owned, mailbox, incarnation, latches, now);
        }
        if !owned.batch->Some_0.fired() && owned.timer_is_due(now) {
            law_a_fire_takes_each_due_timer_once(owned.timers, now);
            let armings = begun.batch->Some_0.armings();
            let pair = choose|pair: Armed| #[trigger]
                owned.timers.armed.contains(pair) && pair.0@ <= now@;
            assert(owned.timers.armed.contains(pair));
            assert(armings.len() > 0);
            assert(owned.timers.entries.dom().contains(armings[0].0));
            assert(leading(armings, retracted_from(begun.timers)) == 0);
            assert(begun.past_events(
                leading(captured, cancelled_in(latches)),
            ).batch->Some_0.armings() == armings);
            assert(false);
        }
        assert(begun.timers == owned.timers);
        assert(first.owned.timers == owned.timers);
        assert(first.owned.wf());
        law_a_fresh_turn_settles(first.owned, mailbox, incarnation, latches, now);
    }
}

/// A turn loses nothing: continuations leave one at a time, as what is handed
/// back, and completions leave in order, cancelled ones to be destroyed and at
/// most one handed back.
pub proof fn law_a_turn_loses_nothing<M, C, W>(
    owned: RawModel<M, C, W>,
    mailbox: MailboxModel<M>,
    incarnation: Incarnation,
    latches: Seq<bool>,
    now: Instant,
)
    requires
        owned.wf(),
    ensures
        ({
            let turn = owned.turn(mailbox, incarnation, latches, now);
            let gone = owned.events.len() - turn.owned.events.len();
            &&& turn.owned.continuations == if turn.end is Continuation {
                owned.continuations.skip(1)
            } else {
                owned.continuations
            }
            &&& turn.end matches TurnEnd::Continuation(message) ==> message
                == owned.continuations[0]
            &&& 0 <= gone
            &&& turn.owned.events == owned.events.skip(gone)
            &&& turn.end matches TurnEnd::Completion(event) ==> gone > 0 && event
                == owned.events[gone - 1] && !cancelled_in::<C>(latches)(event)
            &&& forall|i: int|
                0 <= i < gone && !(turn.end is Completion && i == gone - 1) ==> cancelled_in::<C>(
                    latches,
                )(#[trigger] owned.events[i]) && turn.cleanup[i] == Cleanup::<M, C, W>::Completion(
                    owned.events[i],
                )
            &&& !(turn.end is Mail) ==> turn.mailbox == mailbox
        }),
{
    let accepted = AcceptedSequence(mailbox.accepted);
    let begun = owned.begun(accepted, now);
    lemma_begun_wf(owned, accepted, now);
    let captured = begun.events.take(begun.batch->Some_0.offloads_remaining as int);
    lemma_leading_bounds(captured, cancelled_in(latches));
    let cancelled = leading(captured, cancelled_in(latches));
    let turn = owned.turn(mailbox, incarnation, latches, now);
    let gone = owned.events.len() - turn.owned.events.len();
    assert(turn.owned.events =~= owned.events.skip(gone));
    assert forall|i: int| 0 <= i < gone && !(turn.end is Completion && i == gone - 1) implies {
        &&& cancelled_in::<C>(latches)(#[trigger] owned.events[i])
        &&& turn.cleanup[i] == Cleanup::<M, C, W>::Completion(owned.events[i])
    } by {
        assert(i < cancelled);
        assert(captured[i] == owned.events[i]);
    }
}

/// A continuation follows another only where nothing else was ready: neither a
/// captured message nor a captured completion, nor, while no timer has fired,
/// any that came later.
pub proof fn law_continuations_never_starve_other_work<M, C, W>(
    owned: RawModel<M, C, W>,
    mailbox: MailboxModel<M>,
    incarnation: Incarnation,
    latches: Seq<bool>,
    now: Instant,
)
    requires
        owned.wf(),
        owned.last_delivery_was_continuation,
        owned.turn(mailbox, incarnation, latches, now).end is Continuation,
    ensures
        ({
            let begun = owned.begun(AcceptedSequence(mailbox.accepted), now);
            let batch = begun.batch->Some_0;
            &&& begun.mail(mailbox, incarnation) is None
            &&& forall|i: int|
                0 <= i < batch.offloads_remaining ==> cancelled_in::<C>(latches)(
                    #[trigger] begun.events[i],
                )
            &&& !batch.fired() ==> {
                &&& !batch.budget_exhausted()
                &&& mailbox.accepted <= batch.mailbox_through.0
                &&& begun.events.len() == batch.offloads_remaining
            }
        }),
{
    let accepted = AcceptedSequence(mailbox.accepted);
    let begun = owned.begun(accepted, now);
    lemma_begun_wf(owned, accepted, now);
    let batch = begun.batch->Some_0;
    let captured = begun.events.take(batch.offloads_remaining as int);
    lemma_leading_bounds(captured, cancelled_in(latches));
    assert forall|i: int| 0 <= i < batch.offloads_remaining implies cancelled_in::<C>(latches)(
        #[trigger] begun.events[i],
    ) by {
        assert(captured[i] == begun.events[i]);
    }
}

/// The cuts of a selection are fixed while it lasts: what a turn hands back
/// from the mailbox or the completions was captured, so that later arrivals
/// jump neither captured completions nor fired timers.
pub proof fn law_later_arrivals_do_not_jump_the_cut<M, C, W>(
    owned: RawModel<M, C, W>,
    mailbox: MailboxModel<M>,
    incarnation: Incarnation,
    latches: Seq<bool>,
    now: Instant,
)
    requires
        owned.wf(),
        owned.batch matches Some(batch) && (batch.fired() || !owned.timer_is_due(now)),
    ensures
        ({
            let turn = owned.turn(mailbox, incarnation, latches, now);
            let batch = owned.batch->Some_0;
            &&& turn.end matches TurnEnd::Mail(envelope) ==> envelope.accepted_sequence.0
                <= batch.mailbox_through.0
            &&& turn.end is Completion ==> owned.events.len() - turn.owned.events.len()
                <= batch.offloads_remaining
            &&& turn.owned.batch matches Some(after) ==> {
                &&& after.mailbox_through == batch.mailbox_through
                &&& after.fired() == batch.fired()
                &&& after.offloads_remaining == batch.offloads_remaining - (owned.events.len()
                    - turn.owned.events.len())
            }
        }),
{
    let accepted = AcceptedSequence(mailbox.accepted);
    let begun = owned.begun(accepted, now);
    lemma_begun_wf(owned, accepted, now);
    let captured = begun.events.take(begun.batch->Some_0.offloads_remaining as int);
    lemma_leading_bounds(captured, cancelled_in(latches));
}

/// While no timer has fired a selection takes one message from the mailbox: a
/// mailbox that is always readable does not keep captured completions waiting.
pub proof fn law_a_busy_mailbox_does_not_starve_completions<M, C, W>(
    owned: RawModel<M, C, W>,
    mailbox: MailboxModel<M>,
    incarnation: Incarnation,
    latches: Seq<bool>,
    now: Instant,
)
    requires
        owned.wf(),
        !owned.timer_is_due(now),
        owned.batch matches Some(batch) && batch.budget_exhausted() && batch.offloads_remaining > 0,
        !cancelled_in::<C>(latches)(owned.events[0]),
    ensures
        ({
            let turn = owned.turn(mailbox, incarnation, latches, now);
            turn.end == TurnEnd::<M, C>::Completion(owned.events[0]) || (turn.end is Continuation
                && !owned.last_delivery_was_continuation)
        }),
{
    let begun = owned.begun(AcceptedSequence(mailbox.accepted), now);
    let captured = begun.events.take(begun.batch->Some_0.offloads_remaining as int);
    assert(captured[0] == owned.events[0]);
    assert(leading(captured, cancelled_in(latches)) == 0);
}

/// A timer that is due and alone is delivered, the soonest first.
pub proof fn law_a_due_timer_is_delivered<M, C, W>(
    owned: RawModel<M, C, W>,
    mailbox: MailboxModel<M>,
    incarnation: Incarnation,
    latches: Seq<bool>,
    now: Instant,
)
    requires
        owned.wf(),
        owned.batch is None,
        owned.timer_is_due(now),
        owned.continuations.len() == 0,
        owned.events.len() == 0,
        mailbox.received(
            incarnation,
            ReceiveMode::LiveThrough(AcceptedSequence(mailbox.accepted)),
        ) is None,
    ensures
        ({
            let turn = owned.turn(mailbox, incarnation, latches, now);
            let orders = owned.timers.due_orders(now);
            let entry = owned.timers.entries[orders[0].0];
            &&& orders.len() > 0
            &&& turn.end == if entry.period is Some {
                TurnEnd::<M, C>::Tick(orders[0])
            } else {
                TurnEnd::<M, C>::Timer(entry)
            }
            &&& turn.owned.settled(turn.end.found(), now).batch->Some_0.armings() == orders.skip(1)
        }),
{
    law_a_fire_takes_each_due_timer_once(owned.timers, now);
    let begun = owned.begun(AcceptedSequence(mailbox.accepted), now);
    let orders = owned.timers.due_orders(now);
    let pair = choose|pair: Armed| #[trigger]
        owned.timers.armed.contains(pair) && pair.0@ <= now@;
    assert(owned.timers.armed.contains(pair));
    assert(orders.len() > 0);
    assert(owned.timers.entries.dom().contains(orders[0].0));
    let captured = begun.events.take(begun.batch->Some_0.offloads_remaining as int);
    assert(captured =~= Seq::empty());
    assert(leading(captured, cancelled_in(latches)) == 0);
    let late = begun.past_events(0);
    assert(leading(orders, retracted_from(late.timers)) == 0);
}

/// Once a stop has begun it lasts, whatever latches fire later, and new work is
/// turned away from then on; so is it once the incarnation was frozen.
pub proof fn law_a_stopping_context_turns_work_away<M, C, W>(
    context: RawContext<M, C, W>,
    latches: Seq<bool>,
    later: Seq<bool>,
)
    requires
        later.len() >= latches.len(),
        forall|i: int| 0 <= i < latches.len() && latches[i] ==> #[trigger] later[i],
    ensures
        context.stopping(latches) ==> context.stopping(later) && context.turns_away(later),
        !context.resources.accepting ==> context.turns_away(later),
{
    if is_set(latches, context.local_stop) {
        assert(later[context.local_stop.0 as int]);
    }
    if is_set(latches, context.shutdown) {
        assert(later[context.shutdown.0 as int]);
    }
    if is_set(latches, context.abort) {
        assert(later[context.abort.0 as int]);
    }
}

/// Stopping twice is stopping once: the second stop changes no mailbox, latch
/// or resource, and finds nothing to destroy.
pub proof fn law_stopping_twice_is_stopping_once<M, C, W>(
    before: RawResources<M, C, W>,
    after: RawResources<M, C, W>,
    mailbox: MailboxModel<M>,
    incarnation: Incarnation,
    latches: LatchTable,
    local_stop: LatchId,
)
    requires
        all_known(before.offloads@, latches),
        latches.has(local_stop),
        after@ == before@.frozen(),
    ensures
        ({
            let stopped = before@.frozen_latches(latches@).update(local_stop.0 as int, true);
            &&& after@.frozen() == after@
            &&& after.freeze_steps(stopped) == Seq::<Cleanup<M, C, W>>::empty()
            &&& after@.frozen_latches(stopped).update(local_stop.0 as int, true) == stopped
            &&& mailbox.frozen(incarnation).frozen(incarnation) == mailbox.frozen(incarnation)
        }),
{
    law_freezing_is_final(before@, latches@);
    lemma_cancelled_latches_len(before.offloads@, latches);
    let stopped = before@.frozen_latches(latches@).update(local_stop.0 as int, true);
    assert(after@.frozen_latches(stopped).update(local_stop.0 as int, true) =~= stopped);
}

/// A successful initializer that stops itself becomes ready first; one that
/// ends under a supervisor's shutdown does not.
pub proof fn law_readiness_precedes_a_deferred_stop<M, C, W>(
    context: RawContext<M, C, W>,
    latches: Seq<bool>,
)
    requires
        context.readiness is AfterInit,
        context.deferred_init_stop,
        context.ready.0 < latches.len(),
        context.local_stop.0 < latches.len(),
        context.ready != context.local_stop,
        !is_set(latches, context.ready),
    ensures
        is_set(context.init_latches(true, latches), context.local_stop),
        is_set(context.init_latches(true, latches), context.ready) <==> !is_set(
            latches,
            context.local_stop,
        ) && !is_set(latches, context.shutdown) && !is_set(latches, context.abort),
        !is_set(context.init_latches(false, latches), context.ready),
{
}

/// The ledger forgets an offload only once its completion was announced, and
/// then always.
pub proof fn law_only_announced_offloads_are_forgotten<M, C, W>(
    owned: RawModel<M, C, W>,
    latches: Seq<bool>,
    i: int,
)
    requires
        0 <= i < owned.offloads.len(),
    ensures
        !owned.offloads[i].retirable(latches) ==> owned.reclaimed(latches).offloads.contains(
            owned.offloads[i],
        ),
        forall|j: int|
            0 <= j < owned.reclaimed(latches).offloads.len() ==> !(
            #[trigger] owned.reclaimed(latches).offloads[j]).retirable(latches),
{
    let keeps = |offload: OffloadResource<W>| !offload.retirable(latches);
    if !owned.offloads[i].retirable(latches) {
        owned.offloads.lemma_filter_contains(keeps, i);
    }
    assert forall|j: int| 0 <= j < owned.reclaimed(latches).offloads.len() implies !(
    #[trigger] owned.reclaimed(latches).offloads[j]).retirable(latches) by {
        owned.offloads.lemma_filter_pred(keeps, j);
    }
}

} // verus!
