use shelterwood::identity::{
    ChildId, Incarnation, LineageSource, Membership, MembershipReconciliation, MonotonicCounter,
    PoisonedCounter, ScopeIdentity,
};
use shelterwood::time::{Deadline, Duration, Instant};

fn id(text: &str) -> ChildId {
    ChildId::new(text.to_string())
}

#[test]
fn names_are_compared_by_their_text() {
    assert!(id("a").same(&id("a")));
    assert!(!id("a").same(&id("b")));
    assert!(id("").is_empty());
    assert!(!id("a").is_empty());
    assert_eq!(id("a").clone(), id("a"));
}

#[test]
fn a_later_membership_supersedes_only_its_own_line() {
    let older = Membership { lineage: 1, generation: 1 };
    let newer = Membership { lineage: 1, generation: 2 };
    let stranger = Membership { lineage: 2, generation: 9 };
    assert!(newer.supersedes(older));
    assert!(!older.supersedes(newer));
    assert!(!older.supersedes(older));
    assert!(!stranger.supersedes(older) && !older.supersedes(stranger));
}

#[test]
fn a_later_incarnation_supersedes_only_its_own_membership() {
    let membership = Membership { lineage: 1, generation: 1 };
    let first = Incarnation { membership, ordinal: 1 };
    let second = Incarnation { membership, ordinal: 2 };
    let other = Incarnation {
        membership: Membership { lineage: 2, generation: 1 },
        ordinal: 3,
    };
    assert!(second.supersedes(first));
    assert!(!first.supersedes(second));
    assert!(!first.supersedes(first));
    assert!(!other.supersedes(second));
}

#[test]
fn counters_never_repeat() {
    let mut counter = MonotonicCounter::new();
    assert_eq!(counter.mint(), 1);
    assert_eq!(counter.mint(), 2);
    assert_eq!(counter.load(), 2);

    let mut poisoned = PoisonedCounter::near_exhaustion();
    let last = poisoned.mint().expect("one value is left");
    assert_eq!(poisoned.mint(), None);
    assert_eq!(poisoned.mint(), None, "an exhausted counter stays exhausted");
    assert_eq!(poisoned.load(), last);
    assert_eq!(PoisonedCounter::new().mint(), Some(1));
}

#[test]
fn minting_a_known_name_continues_its_line() {
    let mut lineages = LineageSource::new();
    let mut identity = ScopeIdentity::new();
    let first = identity.mint_membership(&id("a"), &mut lineages).expect("available");
    let second = identity.mint_membership(&id("a"), &mut lineages).expect("available");
    let other = identity.mint_membership(&id("b"), &mut lineages).expect("available");
    assert!(second.supersedes(first));
    assert_ne!(other.lineage, first.lineage);
}

#[test]
fn an_offered_line_is_adopted_once_and_continued_afterwards() {
    let mut identity = ScopeIdentity::new();
    let offered = Membership { lineage: 5, generation: 3 };
    assert_eq!(
        identity.adopt_or_mint_membership(&id("a"), offered),
        MembershipReconciliation::Adopted
    );
    let fit = identity.adopt_or_mint_membership(&id("a"), Membership { lineage: 8, generation: 1 });
    let MembershipReconciliation::Minted(next) = fit else {
        panic!("the known line is continued")
    };
    assert!(next.supersedes(offered));

    let mut worn = ScopeIdentity::near_exhaustion(id("a"), 7);
    assert!(matches!(
        worn.adopt_or_mint_membership(&id("a"), offered),
        MembershipReconciliation::Minted(_)
    ));
    assert_eq!(
        worn.adopt_or_mint_membership(&id("a"), offered),
        MembershipReconciliation::Exhausted
    );
}

#[test]
fn eviction_breaks_the_line_of_the_newest_membership_only() {
    let mut lineages = LineageSource::new();
    let mut identity = ScopeIdentity::new();
    let first = identity.mint_membership(&id("a"), &mut lineages).expect("available");
    let second = identity.mint_membership(&id("a"), &mut lineages).expect("available");
    identity.evict(&id("a"), first);
    let third = identity.mint_membership(&id("a"), &mut lineages).expect("available");
    assert!(third.supersedes(second), "an outdated eviction changes nothing");
    identity.evict(&id("a"), third);
    let fresh = identity.mint_membership(&id("a"), &mut lineages).expect("available");
    assert!(!fresh.supersedes(third) && !third.supersedes(fresh));
}

#[test]
fn durations_saturate_and_instants_overflow() {
    assert_eq!(Duration::from_secs(2).as_nanos(), 2_000_000_000);
    assert_eq!(Duration::from_millis(3).as_nanos(), 3_000_000);
    assert_eq!(Duration::from_secs(9).at_most(Duration::from_secs(4)), Duration::from_secs(4));
    assert!(Duration::from_secs(1).shorter_than(&Duration::from_secs(2)));
    assert_eq!(
        Duration::max_value().as_nanos(),
        u128::from(u64::MAX) * 1_000_000_000 + 999_999_999
    );
    let now = Instant::from_nanos(10);
    assert_eq!(now.checked_add(Duration::from_nanos(5)), Some(Instant::from_nanos(15)));
    assert_eq!(now.checked_add(Duration::max_value()), None);
    assert!(now.before(&Instant::from_nanos(11)));
    assert!(!now.before(&now));
}

#[test]
fn a_deadline_is_elapsed_at_its_instant_and_overdue_after_it() {
    let deadline = Deadline::after(Instant::from_nanos(10), Duration::from_nanos(5));
    let at = |nanos: u128| Instant::from_nanos(nanos);
    assert_eq!(deadline.instant(), Some(at(15)));
    assert!(!deadline.is_elapsed(at(14)));
    assert!(deadline.is_elapsed(at(15)));
    assert!(!deadline.is_overdue(at(15)));
    assert!(deadline.is_overdue(at(16)));
    let never = Deadline::after(at(10), Duration::max_value());
    assert_eq!(never.instant(), None);
    assert!(!never.is_elapsed(at(1_000)) && !never.is_overdue(at(1_000)));
}
