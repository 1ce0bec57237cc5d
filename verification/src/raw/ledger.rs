//! What an incarnation takes on, gives up and announces: offloads, stops and
//! readiness, said of the latches and of what is owned.

use crate::mailbox::model::MailboxModel;
use crate::mailbox::state::Phase;
use crate::raw::context::{offload_started, CancellationToken, OffloadPlan, RawContext};
use crate::raw::definition::DefinitionSource;
use crate::raw::disposal::{first_of, PanicPayload};
use crate::raw::latch::{is_set, LatchId};
use crate::raw::offload::{CancelStep, DeadlineElapsed, OffloadResource, SharedOffloadState};
use crate::raw::resources::{
    latches_after_cancelling, steps_of_cancelling, tasks_of, Cleanup, JoinOutcome, RawModel,
    RawResources,
};
use crate::raw::timers::{garbage_of_all, Armed, TimerKey, TimerMessage, TimerModel};
use crate::time::{DeadlineBudget, Duration, Instant};
use vstd::prelude::*;

verus! {

/// A context is stopping exactly where the actor stopped itself, at once or
/// deferred to the end of its initializer, or shutdown or escalation was
/// requested; it turns new work away then and once it is frozen, and takes it
/// on otherwise.
pub proof fn law_a_live_context_takes_on_work<M, C, W>(
    context: RawContext<M, C, W>,
    latches: Seq<bool>,
)
    requires
        context.local_stop.0 < latches.len(),
        context.shutdown.0 < latches.len(),
        context.abort.0 < latches.len(),
    ensures
        ({
            let asked = context.deferred_init_stop || latches[context.local_stop.0 as int]
                || latches[context.shutdown.0 as int] || latches[context.abort.0 as int];
            &&& context.stopping(latches) <==> asked
            &&& context.turns_away(latches) <==> asked || !context.resources.accepting
        }),
{
}

/// A token is cancelled by its parent or by its own latch, and by nothing else.
pub proof fn law_a_token_follows_its_parent(
    parent: LatchId,
    own: LatchId,
    latches: Seq<bool>,
)
    requires
        parent.0 < latches.len(),
        own.0 < latches.len(),
    ensures
        (CancellationToken { parent, own: Some(own) }).cancelled(latches)
            <==> latches[parent.0 as int] || latches[own.0 as int],
        (CancellationToken { parent, own: None }).cancelled(latches) <==> latches[parent.0 as int],
{
}

/// A returning initializer releases the readiness gate exactly where it
/// succeeded, its readiness waits for it, and nobody but the actor itself has
/// asked to stop; a stop it deferred takes effect then. No other latch fires.
pub proof fn law_an_initializer_makes_ready_once_it_returns<M, C, W>(
    context: RawContext<M, C, W>,
    successful: bool,
    latches: Seq<bool>,
    other: LatchId,
)
    requires
        context.ready.0 < latches.len(),
        context.local_stop.0 < latches.len(),
        context.shutdown.0 < latches.len(),
        context.abort.0 < latches.len(),
        context.ready != context.local_stop,
        other.0 < latches.len(),
        other != context.ready,
        other != context.local_stop,
    ensures
        ({
            let after = context.init_latches(successful, latches);
            let released = successful && context.readiness is AfterInit
                && !latches[context.local_stop.0 as int] && !latches[context.shutdown.0 as int]
                && !latches[context.abort.0 as int];
            &&& after.len() == latches.len()
            &&& after[context.ready.0 as int] == (latches[context.ready.0 as int] || released)
            &&& after[context.local_stop.0 as int] == (latches[context.local_stop.0 as int]
                || context.deferred_init_stop)
            &&& after[other.0 as int] == latches[other.0 as int]
        }),
{
}

/// An offload with time is started: its work is handed to the spawner with a
/// token under the actor's shutdown and the instant its budget ends, and owned
/// with its task until it finishes. It gets two fresh latches, neither fired,
/// and nothing is queued for delivery.
pub proof fn law_an_offload_with_time_is_started<
    M,
    C,
    W,
    P,
    K,
    E: Fn(K, DeadlineElapsed) -> C,
    S: Fn(P, K, OffloadPlan) -> (W, u64),
>(
    before: RawContext<M, C, W>,
    owned: RawModel<M, C, W>,
    work: P,
    continuation: K,
    deadline: DeadlineBudget,
    now: Instant,
    latches: Seq<bool>,
    latches_after: Seq<bool>,
    unattempted: Option<P>,
    elapsed: E,
    spawn: S,
)
    requires
        deadline.width@ > 0,
        latches.len() + 1 <= usize::MAX,
        offload_started(
            before,
            owned,
            (work, continuation, deadline, now),
            (latches, latches_after),
            unattempted,
            elapsed,
            spawn,
        ),
    ensures
        unattempted is None,
        latches_after.len() == latches.len() + 2,
        latches_after.take(latches.len() as int) == latches,
        !latches_after[latches.len() as int],
        !latches_after[latches.len() as int + 1],
        owned.events == before.resources@.events,
        owned.continuations == before.resources@.continuations,
        owned.timers == before.resources@.timers,
        owned.accepting == before.resources@.accepting,
        owned.offloads.len() > 0,
        owned.offloads.drop_last() == before.resources@.reclaimed(latches).offloads,
        ({
            let last = owned.offloads.last();
            &&& last.cancellation.0 == latches.len()
            &&& last.finished.0 == latches.len() + 1
            &&& last.task is Some
            &&& last.state matches Some(state)
            &&& state.future is Some && !state.polling && !state.cancelled && !state.published
            &&& state.finished == last.finished
            &&& exists|plan: OffloadPlan| #[trigger]
                call_ensures(
                    spawn,
                    (work, continuation, plan),
                    (state.future->Some_0, last.task->Some_0),
                ) && plan.token == (CancellationToken {
                    parent: before.shutdown,
                    own: Some(last.cancellation),
                }) && plan.expires_at == now.later(deadline.width) && plan.cancellation
                    == last.cancellation && plan.finished == last.finished
        }),
{
    assert(latches_after.take(latches.len() as int) =~= latches);
    let cancellation = LatchId(latches.len() as usize);
    let finished = LatchId((latches.len() + 1) as usize);
    let plan = OffloadPlan {
        token: CancellationToken { parent: before.shutdown, own: Some(cancellation) },
        expires_at: now.later(deadline.width),
        cancellation,
        finished,
    };
    let kept = before.resources@.reclaimed(latches);
    let started = choose|started: (W, u64)| #[trigger]
        call_ensures(spawn, (work, continuation, plan), started) && owned == kept.with_started(
            cancellation,
            finished,
            started,
        );
    assert(call_ensures(spawn, (work, continuation, plan), started));
    assert(owned.offloads.drop_last() =~= kept.offloads);
    let last = owned.offloads.last();
    assert(started == (last.state->Some_0.future->Some_0, last.task->Some_0));
}

/// An offload with no time is never attempted: its work comes back, and the
/// completion that tells of the elapsed deadline is queued last, under a latch
/// that says it has finished.
pub proof fn law_an_offload_without_time_completes_unattempted<
    M,
    C,
    W,
    P,
    K,
    E: Fn(K, DeadlineElapsed) -> C,
    S: Fn(P, K, OffloadPlan) -> (W, u64),
>(
    before: RawContext<M, C, W>,
    owned: RawModel<M, C, W>,
    work: P,
    continuation: K,
    deadline: DeadlineBudget,
    now: Instant,
    latches: Seq<bool>,
    latches_after: Seq<bool>,
    unattempted: Option<P>,
    elapsed: E,
    spawn: S,
)
    requires
        deadline.width@ == 0,
        latches.len() + 1 <= usize::MAX,
        offload_started(
            before,
            owned,
            (work, continuation, deadline, now),
            (latches, latches_after),
            unattempted,
            elapsed,
            spawn,
        ),
    ensures
        unattempted == Some(work),
        latches_after.len() == latches.len() + 2,
        latches_after.take(latches.len() as int) == latches,
        !latches_after[latches.len() as int],
        latches_after[latches.len() as int + 1],
        owned.events.len() > 0,
        owned.events.drop_last() == before.resources@.events,
        owned.events.last().cancellation.0 == latches.len(),
        call_ensures(elapsed, (continuation, DeadlineElapsed), owned.events.last().make_message),
        owned.continuations == before.resources@.continuations,
        owned.timers == before.resources@.timers,
        owned.offloads.len() > 0,
        owned.offloads.drop_last() == before.resources@.reclaimed(latches).offloads,
        ({
            let last = owned.offloads.last();
            &&& last.cancellation.0 == latches.len()
            &&& last.finished.0 == latches.len() + 1
            &&& last.state is None && last.task is None
            &&& last.retirable(latches_after)
        }),
{
    assert(latches_after.take(latches.len() as int) =~= latches);
    let kept = before.resources@.reclaimed(latches);
    let cancellation = LatchId(latches.len() as usize);
    let finished = LatchId((latches.len() + 1) as usize);
    let make_message = choose|make_message: C| #[trigger]
        call_ensures(elapsed, (continuation, DeadlineElapsed), make_message) && owned
            == kept.with_elapsed(cancellation, finished, make_message);
    assert(owned.events.drop_last() =~= before.resources@.events);
    assert(owned.offloads.drop_last() =~= kept.offloads);
}

/// An offload leaves the ledger exactly once its end was announced: work that
/// ran, once its completion was published; work never attempted, once its latch
/// fired. The others stay, in order.
pub proof fn law_the_ledger_keeps_unannounced_offloads<M, C, W>(
    owned: RawModel<M, C, W>,
    resource: OffloadResource<W>,
    latches: Seq<bool>,
)
    ensures
        resource.state matches Some(state) ==> (resource.retirable(latches) <==> state.published),
        resource.state is None && resource.finished.0 < latches.len() ==> (resource.retirable(
            latches,
        ) <==> latches[resource.finished.0 as int]),
        (forall|i: int|
            0 <= i < owned.offloads.len() ==> !(#[trigger] owned.offloads[i]).retirable(latches))
            ==> owned.reclaimed(latches) == owned,
        owned.reclaimed(latches).continuations == owned.continuations,
        owned.reclaimed(latches).timers == owned.timers,
        owned.reclaimed(latches).events == owned.events,
        owned.reclaimed(latches).batch == owned.batch,
        owned.reclaimed(latches).panic == owned.panic,
        owned.reclaimed(latches).accepting == owned.accepting,
        owned.reclaimed(latches).last_delivery_was_continuation
            == owned.last_delivery_was_continuation,
{
    if forall|i: int|
        0 <= i < owned.offloads.len() ==> !(#[trigger] owned.offloads[i]).retirable(latches) {
        lemma_all_kept(
            owned.offloads,
            |offload: OffloadResource<W>| !offload.retirable(latches),
        );
    }
}

proof fn lemma_all_kept<T>(items: Seq<T>, keep: spec_fn(T) -> bool)
    requires
        forall|i: int| 0 <= i < items.len() ==> keep(#[trigger] items[i]),
    ensures
        items.filter(keep) == items,
    decreases items.len(),
{
    reveal(Seq::filter);
    if items.len() > 0 {
        let fewer = items.drop_last();
        assert forall|i: int| 0 <= i < fewer.len() implies keep(#[trigger] fewer[i]) by {
            assert(fewer[i] == items[i]);
        }
        lemma_all_kept(fewer, keep);
        assert(keep(items[items.len() - 1]));
        assert(items =~= fewer.push(items.last()));
    }
}

/// What cancelling one offload does, once: its cancellation is announced unless
/// it was, an idle future is destroyed and a polled one left to its poller, its
/// end is announced unless it was, and its task is aborted.
pub proof fn law_cancelling_an_offload_ends_it<W>(
    resource: OffloadResource<W>,
    latches: Seq<bool>,
)
    requires
        resource.cancellation.0 < latches.len(),
        resource.finished.0 < latches.len(),
        resource.cancellation != resource.finished,
    ensures
        ({
            let steps = resource.cancel_steps(latches);
            let after = resource.cancelled();
            &&& steps.contains(CancelStep::Notify(resource.cancellation))
                <==> !latches[resource.cancellation.0 as int]
            &&& steps.contains(CancelStep::Notify(resource.finished))
                <==> !latches[resource.finished.0 as int]
            &&& resource.task matches Some(task) ==> steps.contains(CancelStep::Abort(task))
            &&& resource.state matches Some(state) ==> {
                &&& !state.polling && state.future is Some ==> steps.contains(
                    CancelStep::Dispose(state.future->Some_0),
                )
                &&& after.state matches Some(left)
                &&& left.cancelled
                &&& !state.polling ==> left.future is None
                &&& state.polling ==> left.future == state.future
                &&& left.polling == state.polling
                &&& left.finished == state.finished
                &&& left.published == state.published
            }
            &&& resource.state is None ==> after == resource
            &&& after.cancellation == resource.cancellation
            &&& after.finished == resource.finished
            &&& after.task == resource.task
            &&& !latches[resource.cancellation.0 as int] ==> steps[0] == CancelStep::<W>::Notify(
                resource.cancellation,
            )
        }),
{
    let steps = resource.cancel_steps(latches);
    let first: Seq<CancelStep<W>> = if is_set(latches, resource.cancellation) {
        seq![]
    } else {
        seq![CancelStep::Notify(resource.cancellation)]
    };
    let second: Seq<CancelStep<W>> = match resource.state {
        Some(state) => if !state.polling && state.future is Some {
            seq![CancelStep::Dispose(state.future->Some_0)]
        } else {
            seq![]
        },
        None => seq![],
    };
    let pending = !is_set(latches, resource.finished);
    let third: Seq<CancelStep<W>> = if resource.state is Some && pending {
        seq![CancelStep::Notify(resource.finished), CancelStep::Publish(resource.cancellation)]
    } else {
        seq![]
    };
    let fourth: Seq<CancelStep<W>> = match resource.task {
        Some(task) => seq![CancelStep::Abort(task)],
        None => seq![],
    };
    let fifth: Seq<CancelStep<W>> = if resource.state is None && pending {
        seq![CancelStep::Notify(resource.finished)]
    } else {
        seq![]
    };
    assert(steps =~= first + second + third + fourth + fifth);
    if first.len() > 0 {
        assert(steps[0] == CancelStep::<W>::Notify(resource.cancellation));
    }
    if second.len() > 0 {
        assert(steps[first.len() as int] == second[0]);
    }
    if third.len() > 0 {
        assert(steps[(first + second).len() as int] == third[0]);
    }
    if fourth.len() > 0 {
        assert(steps[(first + second + third).len() as int] == fourth[0]);
    }
    if fifth.len() > 0 {
        assert(steps[(first + second + third + fourth).len() as int] == fifth[0]);
    }
}

/// Publishing an offload's end lets go of that offload and touches no other.
pub proof fn law_publishing_marks_one_offload<W>(
    resource: OffloadResource<W>,
    cancellation: LatchId,
    latches: Seq<bool>,
)
    ensures
        resource.state is None || resource.cancellation != cancellation ==> resource.published(
            cancellation,
        ) == resource,
        resource.state matches Some(state) ==> (resource.cancellation == cancellation
            ==> resource.published(cancellation) == (OffloadResource::<W> {
            state: Some(SharedOffloadState { published: true, ..state }),
            ..resource
        }) && resource.published(cancellation).retirable(latches)),
{
}

/// Freezing gives up everything that could still be delivered and cancels every
/// offload; a panic already kept stays, and a frozen incarnation stays as it
/// is.
pub proof fn law_freezing_gives_everything_up<M, C, W>(owned: RawModel<M, C, W>)
    ensures
        !owned.accepting ==> owned.frozen() == owned,
        owned.accepting ==> {
            let after = owned.frozen();
            &&& !after.accepting
            &&& after.continuations.len() == 0
            &&& after.events.len() == 0
            &&& after.batch is None
            &&& after.panic == owned.panic
            &&& after.timers.minted == owned.timers.minted
            &&& forall|order: u64| !(#[trigger] after.timers.entries.dom().contains(order))
            &&& forall|at: Instant, order: u64| !(#[trigger] after.timers.armed.contains(
                (at, order),
            ))
            &&& after.offloads.len() == owned.offloads.len()
            &&& forall|i: int| #![trigger after.offloads[i]]
                0 <= i < owned.offloads.len() ==> {
                    &&& after.offloads[i].cancellation == owned.offloads[i].cancellation
                    &&& after.offloads[i].finished == owned.offloads[i].finished
                    &&& after.offloads[i].task == owned.offloads[i].task
                    &&& after.offloads[i].state is Some <==> owned.offloads[i].state is Some
                    &&& after.offloads[i].state matches Some(state) ==> state.cancelled
                }
        },
{
}

/// Freezing fires both latches of every offload, and no other latch.
pub proof fn law_freezing_fires_every_offload_latch<W>(
    offloads: Seq<OffloadResource<W>>,
    latches: Seq<bool>,
    latch: int,
)
    requires
        forall|i: int| #![trigger offloads[i]]
            0 <= i < offloads.len() ==> offloads[i].cancellation.0 < latches.len()
                && offloads[i].finished.0 < latches.len(),
        0 <= latch < latches.len(),
    ensures
        latches_after_cancelling(offloads, latches).len() == latches.len(),
        latches_after_cancelling(offloads, latches)[latch] <==> latches[latch] || exists|i: int|
            #![trigger offloads[i]]
            0 <= i < offloads.len() && (offloads[i].cancellation.0 == latch
                || offloads[i].finished.0 == latch),
    decreases offloads.len(),
{
    if offloads.len() > 0 {
        let fewer = offloads.drop_last();
        assert forall|i: int| #![trigger fewer[i]] 0 <= i < fewer.len() implies
            fewer[i].cancellation.0 < latches.len() && fewer[i].finished.0 < latches.len() by {
            assert(fewer[i] == offloads[i]);
        }
        law_freezing_fires_every_offload_latch(fewer, latches, latch);
        let last = offloads[offloads.len() - 1];
        let after = latches_after_cancelling(offloads, latches);
        if after[latch] && !latches[latch] && last.cancellation.0 != latch && last.finished.0
            != latch {
            let i = choose|i: int|
                #![trigger fewer[i]]
                0 <= i < fewer.len() && (fewer[i].cancellation.0 == latch || fewer[i].finished.0
                    == latch);
            assert(offloads[i] == fewer[i]);
        }
        if exists|i: int|
            #![trigger offloads[i]]
            0 <= i < offloads.len() && (offloads[i].cancellation.0 == latch
                || offloads[i].finished.0 == latch) {
            let i = choose|i: int|
                #![trigger offloads[i]]
                0 <= i < offloads.len() && (offloads[i].cancellation.0 == latch
                    || offloads[i].finished.0 == latch);
            if i < fewer.len() {
                assert(fewer[i] == offloads[i]);
            }
        }
    }
}

/// The latches of a frozen incarnation are those of its cancelled offloads; one
/// frozen before fires nothing more.
pub proof fn law_a_freeze_fires_latches_once<M, C, W>(owned: RawModel<M, C, W>, latches: Seq<bool>)
    ensures
        owned.accepting ==> owned.frozen_latches(latches) == latches_after_cancelling(
            owned.offloads,
            latches,
        ),
        !owned.accepting ==> owned.frozen_latches(latches) == latches,
{
}

/// What a freeze destroys comes in one order: first every offload is cancelled,
/// then every continuation, every timer and every completion goes, each kind
/// oldest first and nothing twice. A frozen incarnation destroys nothing more.
pub proof fn law_a_freeze_destroys_everything_once<M, C, W>(
    resources: RawResources<M, C, W>,
    latches: Seq<bool>,
)
    ensures
        !resources.accepting ==> resources.freeze_steps(latches).len() == 0,
        resources.accepting ==> {
            let steps = resources.freeze_steps(latches);
            let offloads = steps_of_cancelling::<M, C, W>(resources.offloads@, latches).len() as int;
            let messages = offloads + resources.continuations@.len();
            let garbage = garbage_of_all(resources.timers.keyed@);
            let timers = messages + garbage.len();
            &&& steps.len() == timers + resources.events@.len()
            &&& steps.take(offloads) == steps_of_cancelling::<M, C, W>(resources.offloads@, latches)
            &&& forall|i: int| #![trigger resources.continuations@[i]]
                0 <= i < resources.continuations@.len() ==> steps[offloads + i] == Cleanup::<
                    M,
                    C,
                    W,
                >::Continuation(resources.continuations@[i])
            &&& forall|i: int| #![trigger garbage[i]]
                0 <= i < garbage.len() ==> steps[messages + i] == Cleanup::<M, C, W>::Timer(
                    garbage[i],
                )
            &&& forall|i: int| #![trigger resources.events@[i]]
                0 <= i < resources.events@.len() ==> steps[timers + i] == Cleanup::<
                    M,
                    C,
                    W,
                >::Completion(resources.events@[i])
        },
{
    if resources.accepting {
        let cancelling = steps_of_cancelling::<M, C, W>(resources.offloads@, latches);
        assert(resources.freeze_steps(latches).take(cancelling.len() as int) =~= cancelling);
    }
}

/// The steps of cancelling several offloads are those of each in turn, each
/// under the latches the ones before it have fired.
pub proof fn law_offloads_are_cancelled_in_turn<M, C, W>(
    offloads: Seq<OffloadResource<W>>,
    last: OffloadResource<W>,
    latches: Seq<bool>,
    index: int,
)
    ensures
        ({
            let before = steps_of_cancelling::<M, C, W>(offloads, latches);
            let after = steps_of_cancelling::<M, C, W>(offloads.push(last), latches);
            let own = last.cancel_steps(latches_after_cancelling(offloads, latches));
            &&& after.len() == before.len() + own.len()
            &&& after.take(before.len() as int) == before
            &&& 0 <= index < own.len() ==> after[before.len() + index] == Cleanup::<
                M,
                C,
                W,
            >::Offload(own[index])
        }),
        steps_of_cancelling::<M, C, W>(Seq::<OffloadResource<W>>::empty(), latches).len() == 0,
{
    let before = steps_of_cancelling::<M, C, W>(offloads, latches);
    let after = steps_of_cancelling::<M, C, W>(offloads.push(last), latches);
    assert(offloads.push(last).drop_last() =~= offloads);
    assert(after.take(before.len() as int) =~= before);
}

/// A freeze has something to do exactly where it destroys something or stops a
/// live mailbox of this incarnation.
pub proof fn law_a_freeze_is_work_while_something_lives<M, C, W>(
    context: RawContext<M, C, W>,
    mailbox: MailboxModel<M>,
    latches: Seq<bool>,
)
    ensures
        ({
            let live = mailbox.phase matches Phase::Bound(binding) && binding.incarnation
                == context.receiver.incarnation;
            &&& live ==> context.freeze_is_work(mailbox, latches)
            &&& context.resources.accepting && (context.resources.continuations@.len() > 0
                || context.resources.events@.len() > 0) ==> context.freeze_is_work(
                mailbox,
                latches,
            )
            &&& !live && !context.resources.accepting ==> !context.freeze_is_work(mailbox, latches)
        }),
{
    law_a_freeze_destroys_everything_once(context.resources, latches);
    if let Phase::Bound(binding) = mailbox.phase {
        if binding.incarnation == context.receiver.incarnation {
            assert(mailbox.frozen(context.receiver.incarnation).phase is Frozen);
        }
    }
}

/// What is owned at first: nothing, and new work is taken on.
pub proof fn law_an_incarnation_starts_with_nothing<M, C, W>()
    ensures
        ({
            let owned = RawModel::<M, C, W>::unused();
            &&& owned.accepting
            &&& owned.continuations.len() == 0
            &&& owned.events.len() == 0
            &&& owned.offloads.len() == 0
            &&& owned.panic is None
            &&& owned.batch is None
            &&& !owned.last_delivery_was_continuation
            &&& owned.timers.minted == 0
            &&& owned.timers.entries.dom() =~= Set::<u64>::empty()
        }),
{
}

/// Arming a timer installs it under the next arming order, as it was given.
pub proof fn law_a_timer_is_armed_as_given<M>(
    timers: TimerModel<M>,
    key: TimerKey,
    message: TimerMessage<M>,
    period: Option<Duration>,
    deadline: Option<Instant>,
)
    requires
        timers.wf(),
        timers.minted < u64::MAX,
    ensures
        ({
            let after = timers.armed_with(key, message, period, deadline);
            let order = (timers.minted + 1) as u64;
            &&& after.minted == order
            &&& after.entries.dom().contains(order)
            &&& after.entries[order].key == key
            &&& after.entries[order].message == message
            &&& after.entries[order].period == period
            &&& after.entries[order].deadline == deadline
            &&& after.entries[order].arming_order.0 == order
            &&& deadline matches Some(at) ==> after.armed.contains((at, order))
            &&& deadline is None ==> after.fired(order)
        }),
{
    let after = timers.armed_with(key, message, period, deadline);
    let order = (timers.minted + 1) as u64;
    if deadline is None {
        assert forall|pair: Armed| #[trigger]
            after.armed.contains(pair) implies pair.1 != order by {
            assert(timers.armed.contains(pair));
            assert(timers.entries.dom().contains(pair.1));
            assert(timers.entries[pair.1].arming_order.0 == pair.1);
        }
    }
}

/// The tasks to join are those of the offloads that have one, each once and in
/// order.
pub proof fn law_every_task_is_joined<W>(offloads: Seq<OffloadResource<W>>)
    ensures
        forall|i: int| #![trigger offloads[i]]
            0 <= i < offloads.len() && offloads[i].task is Some ==> tasks_of(offloads).contains(
                offloads[i].task->Some_0,
            ),
        tasks_of(offloads).len() <= offloads.len(),
        (forall|i: int| 0 <= i < offloads.len() ==> (#[trigger] offloads[i]).task is Some)
            ==> tasks_of(offloads) == Seq::new(
            offloads.len(),
            |i: int| offloads[i].task->Some_0,
        ),
        (forall|i: int| 0 <= i < offloads.len() ==> (#[trigger] offloads[i]).task is None)
            ==> tasks_of(offloads).len() == 0,
    decreases offloads.len(),
{
    let tasks = tasks_of(offloads);
    if offloads.len() > 0 {
        let fewer = offloads.drop_last();
        law_every_task_is_joined(fewer);
        let before = tasks_of(fewer);
        assert forall|i: int| #![trigger offloads[i]]
            0 <= i < offloads.len() && offloads[i].task is Some implies tasks.contains(
            offloads[i].task->Some_0,
        ) by {
            let task = offloads[i].task->Some_0;
            if i < fewer.len() {
                assert(fewer[i] == offloads[i]);
                let k = choose|k: int| 0 <= k < before.len() && before[k] == task;
                assert(tasks[k] == task);
            } else {
                assert(tasks[before.len() as int] == task);
            }
        }
        if forall|i: int| 0 <= i < offloads.len() ==> (#[trigger] offloads[i]).task is Some {
            assert forall|i: int| 0 <= i < fewer.len() implies (
            #[trigger] fewer[i]).task is Some by {
                assert(fewer[i] == offloads[i]);
            }
            assert(offloads[offloads.len() - 1].task is Some);
            assert(tasks =~= Seq::new(offloads.len(), |i: int| offloads[i].task->Some_0));
        }
        if forall|i: int| 0 <= i < offloads.len() ==> (#[trigger] offloads[i]).task is None {
            assert forall|i: int| 0 <= i < fewer.len() implies (
            #[trigger] fewer[i]).task is None by {
                assert(fewer[i] == offloads[i]);
            }
            assert(offloads[offloads.len() - 1].task is None);
        }
    } else {
        assert(tasks =~= Seq::new(offloads.len(), |i: int| offloads[i].task->Some_0));
    }
}

/// Only a task that panicked leaves a diagnosis: its own text where it has one.
pub proof fn law_only_a_panic_is_diagnosed(outcome: JoinOutcome)
    ensures
        outcome.diagnosis() is Some <==> outcome is Panic,
        outcome matches JoinOutcome::Panic { message: Some(message) } ==> outcome.diagnosis()
            == Some(message@),
{
}

/// The first panic kept is the one resumed: a later one never replaces it, and
/// one is kept wherever one was raised.
pub proof fn law_the_panic_kept_first_stays(
    held: Option<PanicPayload>,
    next: Option<PanicPayload>,
)
    ensures
        held is Some ==> first_of(held, next) == held,
        held is None ==> first_of(held, next) == next,
{
}

/// A one-shot definition is used up by its first use; a factory never is.
pub proof fn law_a_definition_is_used_up_once<F, O>(factory: F, instance: Option<O>)
    ensures
        DefinitionSource::<F, O>::Restartable(factory).taken() == DefinitionSource::<
            F,
            O,
        >::Restartable(factory),
        DefinitionSource::<F, O>::OneShot(instance).taken() == DefinitionSource::<F, O>::OneShot(
            None,
        ),
{
}

} // verus!
