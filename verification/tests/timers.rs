use std::collections::hash_map::DefaultHasher;
use std::collections::HashSet;
use std::hash::{Hash, Hasher};

use shelterwood::identity::PoisonedCounter;
use shelterwood::raw::timers::{
    ArmingOrder, Garbage, IntervalRearm, TimerEntry, TimerKey, TimerMessage, TimerStore,
};
use shelterwood::time::{Duration, Instant};

const BYTE: u64 = 1;
const SHORT: u64 = 2;
const WORD: u64 = 3;
const NAME: u64 = 4;
const COLLIDING: u64 = 5;

fn hash_of(kind: u64, value: u64) -> u64 {
    let mut hasher = DefaultHasher::new();
    kind.hash(&mut hasher);
    value.hash(&mut hasher);
    hasher.finish()
}

fn key(kind: u64, value: u64) -> TimerKey {
    TimerKey { hash: hash_of(kind, value), kind, value }
}

fn colliding(value: u64) -> TimerKey {
    TimerKey { hash: 0, kind: COLLIDING, value }
}

fn start() -> Instant {
    Instant::from_nanos(1_000)
}

fn after(secs: u64) -> Instant {
    start().checked_add(Duration::from_secs(secs)).expect("a representable instant")
}

fn arm<M>(
    timers: &mut TimerStore<M>,
    key: TimerKey,
    deadline: Option<Instant>,
    message: M,
) -> ArmingOrder {
    let mut garbage = Vec::new();
    timers
        .replace(key, deadline, TimerMessage::Once(message), None, &mut garbage)
        .expect("an arming order is left")
}

fn arm_interval<M>(
    timers: &mut TimerStore<M>,
    key: TimerKey,
    deadline: Option<Instant>,
    message: M,
    period: Duration,
) -> ArmingOrder {
    let mut garbage = Vec::new();
    timers
        .replace(key, deadline, TimerMessage::Interval(message), Some(period), &mut garbage)
        .expect("an arming order is left")
}

fn fire_once<M>(timers: &mut TimerStore<M>, order: ArmingOrder) -> Option<M> {
    let mut garbage = Vec::new();
    timers.take_due_once(order, &mut garbage)
}

fn once(entry: TimerEntry<&'static str>) -> &'static str {
    let TimerMessage::Once(message) = entry.message else {
        panic!("expected a live one-shot timer")
    };
    message
}

fn copy(message: &&'static str) -> &'static str {
    *message
}

#[test]
fn raw_heterogeneous_keys_keep_exact_identity_and_deadline_order() {
    let mut timers = TimerStore::new();
    assert_eq!(arm(&mut timers, key(BYTE, 7), Some(after(3)), "old-u8"), ArmingOrder(1));
    assert_eq!(arm(&mut timers, key(SHORT, 7), Some(after(1)), "u16"), ArmingOrder(2));
    assert_eq!(arm(&mut timers, key(BYTE, 7), Some(after(2)), "new-u8"), ArmingOrder(3));

    assert_eq!(timers.next_deadline(), Some(after(1)));
    assert_eq!(
        timers.take_due(after(3)),
        [ArmingOrder(2), ArmingOrder(3)],
        "different key types coexist and replacement takes a fresh order"
    );
    assert_eq!(fire_once(&mut timers, ArmingOrder(2)), Some("u16"));
    assert_eq!(fire_once(&mut timers, ArmingOrder(3)), Some("new-u8"));
    assert!(timers.is_empty());
}

#[test]
fn timers_heterogeneous_keys_keep_exact_identity_and_deadline_order() {
    let mut timers = TimerStore::new();
    arm(&mut timers, key(BYTE, 7), Some(after(3)), "old-u8");
    let u16_arming = arm(&mut timers, key(SHORT, 7), Some(after(1)), "u16");
    let replacement = arm(&mut timers, key(BYTE, 7), Some(after(2)), "new-u8");

    assert_eq!(timers.next_deadline(), Some(after(1)));
    assert_eq!(
        timers.take_due(after(3)),
        [u16_arming, replacement],
        "different key types coexist and replacement takes a fresh order"
    );
    assert_eq!(fire_once(&mut timers, u16_arming), Some("u16"));
    assert_eq!(fire_once(&mut timers, replacement), Some("new-u8"));
    assert!(timers.is_empty());
}

#[test]
fn interval_rearm_overflow_makes_the_live_entry_dormant() {
    let now = start();
    let mut timers = TimerStore::new();
    // The interval fired at a representable deadline, but its next one does not fit the clock.
    let arming = arm_interval(
        &mut timers,
        key(NAME, 1),
        Some(now),
        "tick",
        Duration::max_value(),
    );
    assert_eq!(timers.take_due(now), [arming]);

    assert!(matches!(
        timers.rearm_interval(arming, now, &copy),
        IntervalRearm::Interval("tick")
    ));
    let dormant = timers
        .keyed
        .iter()
        .find(|entry| entry.arming_order == arming)
        .expect("the dormant interval remains clearable");
    assert_eq!(dormant.deadline, None);
    assert_eq!(
        timers.next_deadline(),
        None,
        "overflow never substitutes an immediate delivery"
    );
    assert!(
        timers.take(&key(NAME, 1)).is_some(),
        "overflow dormancy does not erase the keyed interval"
    );
}

#[test]
fn raw_hash_collision_uses_exact_erased_key_equality() {
    let mut timers = TimerStore::new();
    assert_eq!(arm(&mut timers, colliding(1), None, "first"), ArmingOrder(1));
    assert_eq!(arm(&mut timers, colliding(2), None, "second"), ArmingOrder(2));
    assert_eq!(arm(&mut timers, colliding(1), None, "replacement"), ArmingOrder(3));

    assert_eq!(
        once(timers.take(&colliding(2)).expect("colliding peer remains registered")),
        "second"
    );
    assert_eq!(
        once(timers.take(&colliding(1)).expect("replacement remains registered")),
        "replacement"
    );
    assert!(timers.is_empty());
}

#[test]
fn timers_hash_collision_uses_exact_erased_key_equality() {
    let mut timers = TimerStore::new();
    arm(&mut timers, colliding(1), None, "first");
    arm(&mut timers, colliding(2), None, "second");
    arm(&mut timers, colliding(1), None, "replacement");

    assert_eq!(
        once(timers.take(&colliding(2)).expect("colliding peer remains registered")),
        "second"
    );
    assert_eq!(
        once(timers.take(&colliding(1)).expect("replacement remains registered")),
        "replacement"
    );
    assert!(timers.is_empty());
}

#[test]
fn arming_exhaustion_disposes_inputs_and_arms_nothing() {
    let mut timers: TimerStore<&'static str> = TimerStore::new();
    timers.arming_orders = PoisonedCounter::near_exhaustion();
    assert!(timers.can_arm());
    assert!(
        timers.arming_orders.mint().is_some(),
        "the fixture consumes the final arming id"
    );
    assert!(!timers.can_arm());

    let mut garbage = Vec::new();
    assert_eq!(
        timers.replace(
            key(NAME, 1),
            None,
            TimerMessage::Once("unarmed"),
            None,
            &mut garbage,
        ),
        None,
        "the exhausted arming domain arms nothing"
    );
    assert_eq!(garbage.len(), 2, "both inputs are handed to disposal");
    assert!(garbage.iter().any(|item| matches!(item, Garbage::Key(_))));
    assert!(garbage.iter().any(|item| matches!(item, Garbage::Message("unarmed"))));
    assert!(timers.is_empty());
}

#[test]
fn one_shot_delivery_retires_its_key_through_disposal() {
    let mut timers = TimerStore::new();
    let retired = key(NAME, 9);
    let arming = arm(&mut timers, retired, None, "message");

    // Delivery hands back only the message, and the key goes to disposal.
    let mut garbage = Vec::new();
    assert_eq!(
        timers.take_due_once(arming, &mut garbage).expect("the timer is registered"),
        "message"
    );

    assert_eq!(garbage.len(), 1, "the timer key is destroyed");
    assert!(matches!(garbage[0], Garbage::Key(dropped) if dropped == retired));
    assert!(timers.is_empty());
}

#[test]
fn unlink_is_total_when_the_arming_hash_disagrees() {
    let mut timers = TimerStore::new();
    let arming = arm(&mut timers, key(BYTE, 7), None, "message");
    let recorded = timers.armings[0];
    assert_eq!(recorded.0, arming.0);
    timers.armings[0] = (recorded.0, recorded.1.wrapping_add(1));

    assert_eq!(
        once(timers.take(&key(BYTE, 7)).expect("the keyed entry remains removable")),
        "message"
    );
    assert!(timers.is_empty());
}

fn churn(timers: u64) -> TimerStore<()> {
    let mut store = TimerStore::new();
    let mut hashes = HashSet::new();
    let mut keys = Vec::new();
    let mut candidate = 0_u64;
    while (keys.len() as u64) < timers {
        if hashes.insert(hash_of(WORD, candidate)) {
            keys.push(candidate);
        }
        candidate = candidate
            .checked_add(1)
            .expect("test key space must contain enough distinct hashes");
    }
    for (index, value) in keys.iter().copied().enumerate() {
        arm(&mut store, key(WORD, value), Some(after(timers - index as u64)), ());
    }
    let mut garbage = Vec::new();
    for value in keys.into_iter().rev() {
        assert!(store.remove(&key(WORD, value), &mut garbage));
    }
    store
}

#[test]
fn raw_keyed_timer_churn_has_one_lookup_probe_per_removal() {
    const TIMERS: u64 = 16_384;

    let timers = churn(TIMERS);

    assert!(timers.is_empty());
    assert!(timers.deadlines.is_empty());
    assert_eq!(
        timers.lookup_probes, TIMERS,
        "distinct hashes need one exact-key check each, not a vector scan"
    );
}

#[test]
fn timers_keyed_timer_churn_has_one_lookup_probe_per_removal() {
    const TIMERS: u64 = 16_384;

    let timers = churn(TIMERS);

    assert!(timers.is_empty());
    assert!(timers.deadlines.is_empty());
    assert_eq!(
        timers.lookup_probes, TIMERS,
        "distinct hashes need one exact-key check each, not a vector scan"
    );
}

#[test]
fn a_fire_takes_each_due_timer_once_in_deadline_order() {
    let mut timers = TimerStore::new();
    let late = arm(&mut timers, key(WORD, 1), Some(after(9)), "late");
    let second = arm(&mut timers, key(WORD, 2), Some(after(2)), "second");
    let first = arm(&mut timers, key(WORD, 3), Some(after(1)), "first");
    let tied = arm(&mut timers, key(WORD, 4), Some(after(2)), "tied");
    let dormant = arm(&mut timers, key(WORD, 5), None, "dormant");

    assert_eq!(timers.take_due(after(2)), [first, second, tied]);
    assert!(timers.take_due(after(2)).is_empty());
    assert_eq!(timers.next_deadline(), Some(after(9)));
    assert_eq!(fire_once(&mut timers, tied), Some("tied"));
    assert_eq!(fire_once(&mut timers, tied), None);
    assert_eq!(timers.take_due(after(9)), [late]);
    assert!(timers.keyed.iter().any(|entry| entry.arming_order == dormant));
}

#[test]
fn a_cleared_timer_is_never_delivered() {
    let mut timers = TimerStore::new();
    let mut garbage = Vec::new();
    let arming = arm(&mut timers, key(WORD, 1), Some(after(1)), "gone");
    assert_eq!(timers.take_due(after(1)), [arming]);
    assert!(timers.remove(&key(WORD, 1), &mut garbage));
    assert!(!timers.remove(&key(WORD, 1), &mut garbage));
    assert_eq!(fire_once(&mut timers, arming), None);
    assert_eq!(garbage.len(), 2);
}

#[test]
fn arming_a_key_again_replaces_only_that_key() {
    let mut timers = TimerStore::new();
    arm(&mut timers, key(WORD, 1), Some(after(1)), "old");
    let other = arm(&mut timers, key(WORD, 2), Some(after(5)), "other");
    let mut garbage = Vec::new();
    let fresh = timers
        .replace(
            key(WORD, 1),
            Some(after(3)),
            TimerMessage::Once("new"),
            None,
            &mut garbage,
        )
        .expect("an arming order is left");
    assert!(garbage.iter().any(|item| matches!(item, Garbage::Message("old"))));
    assert_eq!(timers.take_due(after(5)), [fresh, other]);
}

#[test]
fn an_interval_is_rearmed_at_delivery() {
    let mut timers = TimerStore::new();
    let period = Duration::from_secs(10);
    let arming = arm_interval(&mut timers, key(NAME, 1), Some(after(10)), "tick", period);
    assert_eq!(timers.take_due(after(12)), [arming]);

    let mut garbage = Vec::new();
    assert_eq!(timers.deliver_due(arming, after(12), &copy, &mut garbage), Some("tick"));
    assert_eq!(
        timers.next_deadline(),
        Some(after(22)),
        "the next period starts at the delivery"
    );
    assert!(garbage.is_empty());
    assert_eq!(timers.take_due(after(22)), [arming]);
}

#[test]
fn rearming_tells_a_one_shot_from_a_missing_timer() {
    let mut timers = TimerStore::new();
    let arming = arm(&mut timers, key(NAME, 1), Some(after(1)), "once");
    assert_eq!(timers.take_due(after(1)), [arming]);
    assert!(matches!(
        timers.rearm_interval(arming, after(1), &copy),
        IntervalRearm::OneShot
    ));
    assert!(timers.take(&key(NAME, 1)).is_some());
    assert!(matches!(
        timers.rearm_interval(arming, after(1), &copy),
        IntervalRearm::Missing
    ));
}

#[test]
fn a_zero_period_clears_the_key_and_disposes_both_inputs() {
    let mut timers = TimerStore::new();
    let mut garbage = Vec::new();
    arm(&mut timers, key(NAME, 1), Some(after(1)), "armed");
    timers.clear_and_dispose(key(NAME, 1), "unused", &mut garbage);
    assert!(timers.is_empty());
    let messages: Vec<&str> = garbage
        .iter()
        .filter_map(|item| match item {
            Garbage::Message(message) => Some(*message),
            Garbage::Key(_) => None,
        })
        .collect();
    assert!(messages.contains(&"armed"));
    assert!(messages.contains(&"unused"));
    assert_eq!(garbage.len(), 4);
}

#[test]
fn clearing_the_store_hands_over_every_key_and_message() {
    let mut timers = TimerStore::new();
    arm(&mut timers, key(NAME, 1), Some(after(1)), "a");
    arm_interval(&mut timers, key(NAME, 2), Some(after(1)), "b", Duration::from_secs(1));
    let mut garbage = Vec::new();
    timers.clear(&mut garbage);
    assert!(timers.is_empty());
    assert_eq!(garbage.len(), 4);
    assert_eq!(timers.next_deadline(), None);
}
