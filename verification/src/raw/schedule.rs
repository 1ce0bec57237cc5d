//! What an incarnation's timers promise: what is armed, what fires when, and
//! what a delivery leaves.

use crate::raw::timers::{
    garbage_of_all, law_a_fire_takes_each_due_timer_once, Armed, ArmingOrder, Garbage, TimerEntry,
    TimerKey, TimerMessage, TimerModel,
};
use crate::time::{Instant, MAX_INSTANT_NANOS};
use vstd::prelude::*;

verus! {

/// Clearing a key removes the timer under it with its deadline, and nothing
/// else: every timer under another key stays installed and armed as it was, and
/// no arming order is used up.
pub proof fn law_clearing_removes_one_key<M>(timers: TimerModel<M>, key: TimerKey)
    requires
        timers.wf(),
    ensures
        ({
            let after = timers.cleared(key);
            &&& after.minted == timers.minted
            &&& forall|order: u64| #[trigger]
                after.entries.dom().contains(order) <==> timers.entries.dom().contains(order)
                    && timers.entries[order].key != key
            &&& forall|order: u64| #![trigger after.entries[order]]
                after.entries.dom().contains(order) ==> after.entries[order]
                    == timers.entries[order]
            &&& forall|pair: Armed| #[trigger]
                after.armed.contains(pair) <==> timers.armed.contains(pair)
                    && timers.entries[pair.1].key != key
        }),
{
    if timers.has_key(key) {
        let found = timers.order_of(key);
        assert(timers.keyed_as(found, key));
        assert forall|order: u64|
            timers.entries.dom().contains(order) && timers.entries[order].key == key implies order
            == found by {
            assert(timers.entries[order].key == timers.entries[found].key);
        }
        assert forall|pair: Armed| #[trigger]
            timers.cleared(key).armed.contains(pair) <==> timers.armed.contains(pair)
            && timers.entries[pair.1].key != key by {
            if timers.armed.contains(pair) {
                assert(timers.entries.dom().contains(pair.1));
            }
        }
    } else {
        assert forall|order: u64| #[trigger] timers.entries.dom().contains(order) implies
            timers.entries[order].key != key by {
            assert(!timers.keyed_as(order, key));
        }
    }
}

/// The timer under a key is the one installed under it, and what clearing it
/// leaves to destroy is its key and then its message; a key nothing is under
/// leaves nothing.
pub proof fn law_a_key_names_its_timer<M>(timers: TimerModel<M>, key: TimerKey, order: u64)
    requires
        timers.wf(),
        timers.entries.dom().contains(order),
        timers.entries[order].key == key,
    ensures
        timers.has_key(key),
        timers.order_of(key) == order,
        timers.garbage_of(key).len() == 2,
        timers.garbage_of(key)[0] == Garbage::<M>::Key(key),
        timers.garbage_of(key)[1] == match timers.entries[order].message {
            TimerMessage::Once(message) => Garbage::Message(message),
            TimerMessage::Interval(message) => Garbage::Message(message),
        },
        !timers.cleared(key).has_key(key),
        timers.cleared(key).garbage_of(key).len() == 0,
{
    assert(timers.keyed_as(order, key));
    let found = timers.order_of(key);
    assert(timers.keyed_as(found, key));
    assert(timers.entries[order].key == timers.entries[found].key);
    law_clearing_removes_one_key(timers, key);
    let after = timers.cleared(key);
    if after.has_key(key) {
        let left = after.order_of(key);
        assert(after.keyed_as(left, key));
        assert(after.entries.dom().contains(left));
    }
}

/// An armed timer is installed as it was given and, where the clock can hold
/// its deadline, is to fire exactly then; every other timer stays as it was.
pub proof fn law_an_armed_timer_is_to_fire_once<M>(timers: TimerModel<M>, entry: TimerEntry<M>)
    requires
        timers.wf(),
        timers.minted < u64::MAX,
        entry.arming_order.0 == timers.minted + 1,
    ensures
        ({
            let after = timers.cleared(entry.key).with(entry);
            let order = entry.arming_order.0;
            &&& after.minted == order
            &&& after.entries.dom().contains(order)
            &&& after.entries[order] == entry
            &&& forall|at: Instant| #[trigger]
                after.armed.contains((at, order)) <==> entry.deadline == Some(at)
            &&& forall|other: u64| #[trigger]
                after.entries.dom().contains(other) <==> other == order || (
                timers.entries.dom().contains(other) && timers.entries[other].key != entry.key)
            &&& forall|other: u64| #![trigger after.entries[other]]
                other != order && after.entries.dom().contains(other) ==> after.entries[other]
                    == timers.entries[other]
            &&& forall|pair: Armed| #[trigger]
                after.armed.contains(pair) && pair.1 != order <==> timers.armed.contains(pair)
                    && timers.entries[pair.1].key != entry.key
        }),
{
    law_clearing_removes_one_key(timers, entry.key);
    let cleared = timers.cleared(entry.key);
    let after = cleared.with(entry);
    let order = entry.arming_order.0;
    assert forall|pair: Armed| #[trigger] timers.armed.contains(pair) implies pair.1 != order by {
        assert(timers.entries.dom().contains(pair.1));
        assert(timers.entries[pair.1].arming_order.0 == pair.1);
    }
    assert forall|at: Instant| #[trigger] after.armed.contains((at, order)) <==> entry.deadline
        == Some(at) by {
        assert(!timers.armed.contains((at, order)));
        assert(!cleared.armed.contains((at, order)));
    }
    assert forall|pair: Armed| #[trigger]
        after.armed.contains(pair) && pair.1 != order <==> timers.armed.contains(pair)
        && timers.entries[pair.1].key != entry.key by {
        assert(cleared.armed.contains(pair) <==> timers.armed.contains(pair)
            && timers.entries[pair.1].key != entry.key);
    }
}

/// A fire at `now` names exactly the timers whose deadline has come, each once,
/// the sooner deadline first and the older arming first among equal ones.
pub proof fn law_a_fire_names_what_has_come<M>(timers: TimerModel<M>, now: Instant)
    requires
        timers.wf(),
        timers.listed(),
    ensures
        ({
            let orders = timers.due_orders(now);
            &&& forall|at: Instant, order: u64| #[trigger]
                timers.armed.contains((at, order)) ==> (at@ <= now@ <==> orders.contains(
                    ArmingOrder(order),
                ))
            &&& forall|i: int| #![trigger orders[i]]
                0 <= i < orders.len() ==> {
                    &&& timers.entries[orders[i].0].deadline matches Some(at)
                    &&& at@ <= now@
                    &&& timers.armed.contains((at, orders[i].0))
                }
            &&& forall|i: int, j: int| #![trigger orders[i], orders[j]]
                0 <= i < j < orders.len() ==> {
                    let sooner = timers.entries[orders[i].0].deadline->Some_0;
                    let later = timers.entries[orders[j].0].deadline->Some_0;
                    sooner@ < later@ || (sooner@ == later@ && orders[i].0 < orders[j].0)
                }
        }),
{
    law_a_fire_takes_each_due_timer_once(timers, now);
    let orders = timers.due_orders(now);
    assert forall|at: Instant, order: u64| #[trigger]
        timers.armed.contains((at, order)) implies (at@ <= now@ <==> orders.contains(
        ArmingOrder(order),
    )) by {
        let pair: Armed = (at, order);
        assert(timers.entries[pair.1].deadline == Some(pair.0));
        if orders.contains(ArmingOrder(order)) {
            let i = choose|i: int| 0 <= i < orders.len() && orders[i] == ArmingOrder(order);
            assert(timers.entries[orders[i].0].deadline->Some_0@ <= now@);
        }
    }
    assert forall|i: int, j: int| #![trigger orders[i], orders[j]]
        0 <= i < j < orders.len() implies ({
        let sooner = timers.entries[orders[i].0].deadline->Some_0;
        let later = timers.entries[orders[j].0].deadline->Some_0;
        sooner@ < later@ || (sooner@ == later@ && orders[i].0 < orders[j].0)
    }) by {
        assert(orders[i] != orders[j]);
    }
}

/// A fire takes the deadlines that have come and leaves those still to come,
/// and every timer installed.
pub proof fn law_a_fire_leaves_what_is_to_come<M>(timers: TimerModel<M>, now: Instant)
    ensures
        timers.after_due(now).entries == timers.entries,
        timers.after_due(now).minted == timers.minted,
        forall|pair: Armed| #[trigger]
            timers.after_due(now).armed.contains(pair) <==> timers.armed.contains(pair) && pair.0@
                > now@,
        timers.any_due(now) <==> exists|pair: Armed| #[trigger]
            timers.armed.contains(pair) && pair.0@ <= now@,
        !timers.after_due(now).any_due(now),
{
}

/// The soonest deadline is one that is armed and none comes before it; a fire at
/// a time before it finds nothing, and one at it or after finds something.
pub proof fn law_nothing_fires_before_the_soonest_deadline<M>(
    timers: TimerModel<M>,
    at: Instant,
    now: Instant,
)
    requires
        timers.wf(),
        timers.listed(),
        timers.soonest(at),
    ensures
        timers.any_due(now) <==> at@ <= now@,
        timers.due_orders(now).len() > 0 <==> at@ <= now@,
        forall|pair: Armed| #[trigger] timers.armed.contains(pair) ==> at@ <= pair.0@,
        exists|order: u64| #[trigger] timers.armed.contains((at, order)),
{
    law_a_fire_takes_each_due_timer_once(timers, now);
    let order = choose|order: u64| #[trigger] timers.armed.contains((at, order));
    assert(timers.armed.contains((at, order)));
}

/// Delivering a one-shot timer uninstalls it and leaves its key to destroy;
/// every other timer stays as it was.
pub proof fn law_a_one_shot_leaves_when_delivered<M>(
    timers: TimerModel<M>,
    order: u64,
    now: Instant,
)
    requires
        timers.wf(),
        timers.entries.dom().contains(order),
        timers.entries[order].period is None,
    ensures
        ({
            let after = timers.delivered(order, now);
            &&& timers.delivery_garbage(order) == seq![
                Garbage::<M>::Key(timers.entries[order].key),
            ]
            &&& forall|other: u64| #[trigger]
                after.entries.dom().contains(other) <==> timers.entries.dom().contains(other)
                    && other != order
            &&& forall|other: u64| #![trigger after.entries[other]]
                after.entries.dom().contains(other) ==> after.entries[other]
                    == timers.entries[other]
            &&& forall|pair: Armed| #[trigger]
                after.armed.contains(pair) <==> timers.armed.contains(pair) && pair.1 != order
            &&& after.minted == timers.minted
        }),
{
}

/// Delivering an interval keeps it installed under the same key and order with
/// the same message and period, to fire one period after the delivery; one past
/// the end of the clock never fires again. Nothing is destroyed, and every other
/// timer stays as it was.
pub proof fn law_an_interval_fires_again<M>(timers: TimerModel<M>, order: u64, now: Instant)
    requires
        timers.wf(),
        timers.entries.dom().contains(order),
        timers.entries[order].period is Some,
        timers.fired(order),
    ensures
        ({
            let entry = timers.entries[order];
            let after = timers.delivered(order, now);
            let period = entry.period->Some_0;
            &&& timers.delivery_garbage(order).len() == 0
            &&& after.entries.dom() == timers.entries.dom()
            &&& after.entries[order].key == entry.key
            &&& after.entries[order].arming_order == entry.arming_order
            &&& after.entries[order].message == entry.message
            &&& after.entries[order].period == entry.period
            &&& forall|other: u64| #![trigger after.entries[other]]
                other != order ==> after.entries[other] == timers.entries[other]
            &&& forall|at: Instant| #[trigger]
                after.armed.contains((at, order)) ==> at@ == now@ + period@
            &&& now@ + period@ <= MAX_INSTANT_NANOS ==> (
            after.entries[order].deadline matches Some(next) && next@ == now@ + period@
                && after.armed.contains((next, order)))
            &&& now@ + period@ > MAX_INSTANT_NANOS ==> after.entries[order].deadline
                is None && after.fired(order)
            &&& forall|pair: Armed| #[trigger]
                after.armed.contains(pair) && pair.1 != order <==> timers.armed.contains(pair)
            &&& after.minted == timers.minted
        }),
{
    broadcast use Instant::lemma_later;

    let after = timers.delivered(order, now);
    assert(after.entries.dom() =~= timers.entries.dom());
    assert forall|at: Instant| #[trigger] after.armed.contains((at, order)) implies at@ == now@
        + timers.entries[order].period->Some_0@ by {
        let pair: Armed = (at, order);
        assert(!timers.armed.contains(pair));
    }
    assert forall|pair: Armed| #[trigger]
        after.armed.contains(pair) && pair.1 != order <==> timers.armed.contains(pair) by {
        if timers.armed.contains(pair) {
            assert(pair.1 != order);
        }
    }
}

/// Delivering an arming whose timer was retracted changes and destroys nothing.
pub proof fn law_a_retracted_arming_delivers_nothing<M>(
    timers: TimerModel<M>,
    order: u64,
    now: Instant,
)
    requires
        !timers.entries.dom().contains(order),
    ensures
        timers.delivered(order, now) == timers,
        timers.delivery_garbage(order).len() == 0,
{
}

/// Clearing the whole store leaves every key and every message to destroy, each
/// timer's key before its message, in the order the timers are filed.
pub proof fn law_every_key_and_message_is_left_to_destroy<M>(
    entries: Seq<TimerEntry<M>>,
    index: int,
)
    requires
        0 <= index < entries.len(),
    ensures
        garbage_of_all(entries).len() == 2 * entries.len(),
        garbage_of_all(entries)[2 * index] == Garbage::<M>::Key(entries[index].key),
        garbage_of_all(entries)[2 * index + 1] == match entries[index].message {
            TimerMessage::Once(message) => Garbage::Message(message),
            TimerMessage::Interval(message) => Garbage::Message(message),
        },
    decreases entries.len(),
{
    lemma_garbage_length(entries);
    lemma_garbage_length(entries.drop_last());
    if index < entries.len() - 1 {
        law_every_key_and_message_is_left_to_destroy(entries.drop_last(), index);
        assert(entries.drop_last()[index] == entries[index]);
    }
}

proof fn lemma_garbage_length<M>(entries: Seq<TimerEntry<M>>)
    ensures
        garbage_of_all(entries).len() == 2 * entries.len(),
    decreases entries.len(),
{
    if entries.len() > 0 {
        lemma_garbage_length(entries.drop_last());
    }
}

} // verus!
