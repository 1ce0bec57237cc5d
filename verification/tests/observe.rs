use std::cell::Cell;

use shelterwood::exit::{Exit, StopReason};
use shelterwood::identity::{ChildId, Incarnation, LineageSource, Membership, ScopeIdentity};
use shelterwood::observe::lifecycle::{
    LifecycleHub, LifecycleTryRecvError, ObservationWakes, LIFECYCLE_EVENT_CAPACITY,
};
use shelterwood::observe::snapshot::{ChildSnapshot, ScopeSnapshot, SnapshotClosed, SnapshotHub};
use shelterwood::observe::{
    ChildState, LifecycleEvent, LifecycleEventKind, LifecycleItem, LifecycleSeq,
    MembershipStatus, ScopeKind, ScopeState, WaitError,
};
use shelterwood::policy::{
    Intensity, RestartAttempt, RestartCount, RestartPolicy, Retention, TotalRestarts,
};
use shelterwood::poll::Poll;
use shelterwood::time::Duration;

fn id(text: &str) -> ChildId {
    ChildId::new(text.to_string())
}

fn membership() -> Membership {
    let mut identity = ScopeIdentity::new();
    let mut lineages = LineageSource::new();
    identity
        .mint_membership(&id("scope"), &mut lineages)
        .expect("membership available")
}

fn event(scope: Membership, seq: u64) -> LifecycleEvent {
    LifecycleEvent {
        scope_path: Vec::new(),
        scope,
        seq: LifecycleSeq::new(seq),
        kind: LifecycleEventKind::ScopeState { state: ScopeState::Running },
    }
}

fn snapshot(state: ScopeState) -> ScopeSnapshot {
    ScopeSnapshot {
        state,
        kind: ScopeKind::Dynamic,
        strategy: None,
        intensity: Intensity::default(),
        total_restarts: TotalRestarts::zero(),
        lifecycle_seq: LifecycleSeq::new(0),
        children: Vec::new(),
    }
}

fn child(name: &str, lineage: u64, nested: Option<ScopeSnapshot>) -> ChildSnapshot {
    let scope_seq = nested.as_ref().map(|scope| scope.lifecycle_seq);
    ChildSnapshot {
        id: id(name),
        membership: Membership { lineage, generation: 1 },
        incarnation: None,
        state: ChildState::Running,
        last_exit: None,
        membership_status: MembershipStatus::Active,
        restart_count: RestartCount::zero(),
        restart_policy: RestartPolicy::default(),
        retention: Retention::Retain,
        restart_at: None,
        nested: nested.map(Box::new),
        scope_seq,
    }
}

#[test]
fn snapshot_projection_is_skipped_without_subscribers() {
    let mut hub: SnapshotHub<ScopeSnapshot> = SnapshotHub::new();
    assert!(!hub.publish(&|| panic!("projection must be lazy when no receiver exists")));
}

#[test]
fn snapshot_publication_that_linearizes_before_close_is_drained() {
    let mut hub = SnapshotHub::new();
    let mut snapshots = hub.subscribe(snapshot(ScopeState::Unstarted));
    assert!(hub.publish(&|| snapshot(ScopeState::Running)));
    hub.close();

    let Poll::Ready(Ok(latest)) = snapshots.changed(&hub) else {
        panic!("publication precedes close")
    };
    assert_eq!(latest.state, ScopeState::Running);
    assert!(matches!(snapshots.changed(&hub), Poll::Ready(Err(SnapshotClosed))));
    hub.publish(&|| panic!("publication after close must remain lazy"));

    let finished = ScopeState::Stopped { reason: StopReason::Finished };
    let mut after_close = hub.subscribe(snapshot(finished));
    assert_eq!(after_close.borrow_latest(&hub).state, finished);
    assert!(matches!(after_close.changed(&hub), Poll::Ready(Err(SnapshotClosed))));
}

#[test]
fn snapshots_keep_only_the_latest_publication() {
    let projections = Cell::new(0);
    let mut hub = SnapshotHub::new();
    let mut first = hub.subscribe(0_u8);
    assert_eq!(first.changed(&hub), Poll::Pending);
    for value in [1_u8, 2] {
        assert!(hub.publish(&|| {
            projections.set(projections.get() + 1);
            value
        }));
    }
    assert_eq!(projections.get(), 2);
    assert_eq!(first.borrow_latest(&hub), &2);
    assert_eq!(first.changed(&hub), Poll::Ready(Ok(&2)));
    assert_eq!(first.changed(&hub), Poll::Pending);
    first.unsubscribe(&mut hub);
    assert!(!hub.publish(&|| panic!("the last receiver has left")));
}

#[test]
fn a_duplicated_receiver_observes_on_its_own() {
    let mut hub = SnapshotHub::new();
    let mut first = hub.subscribe(0_u8);
    assert!(hub.publish(&|| 1));
    let mut second = first.duplicate(&mut hub);
    assert_eq!(first.changed(&hub), Poll::Ready(Ok(&1)));
    assert_eq!(second.changed(&hub), Poll::Ready(Ok(&1)));
    first.unsubscribe(&mut hub);
    assert!(hub.publish(&|| 2), "the duplicate still watches");
    assert_eq!(second.changed(&hub), Poll::Ready(Ok(&2)));
    hub.close();
    let late = hub.subscribe(3);
    assert_eq!(late.duplicate(&mut hub).borrow_latest(&hub), &3);
    second.unsubscribe(&mut hub);
    assert_eq!(hub.receivers, 0);
}

#[test]
fn snapshots_and_items_are_copied_whole() {
    let nested = snapshot(ScopeState::Starting);
    let mut root = snapshot(ScopeState::Running);
    root.children.push(child("leaf", 2, None));
    root.children.push(child("scope", 3, Some(nested)));
    assert_eq!(root.clone(), root);
    let item = LifecycleItem::Event(event(membership(), 1));
    assert_eq!(item.clone(), item);
    let lagged = LifecycleItem::Lagged { dropped: 4 };
    assert_eq!(lagged.clone(), lagged);
}

#[test]
fn deferred_publication_owes_its_wakes() {
    let mut wakes = ObservationWakes::new();
    let mut snapshots = SnapshotHub::new();
    snapshots.publish_deferred(&mut wakes, &|| 1_u8);
    assert!(!wakes.snapshots, "nobody watches");
    let _receiver = snapshots.subscribe(0);
    snapshots.publish_deferred(&mut wakes, &|| 1);
    assert!(wakes.snapshots);
    assert!(!wakes.lifecycle);

    let mut hub = LifecycleHub::new();
    hub.publish_deferred(&mut wakes, event(membership(), 1));
    assert!(wakes.lifecycle);

    let mut closing = ObservationWakes::new();
    hub.close_deferred(&mut closing);
    snapshots.close_deferred(&mut closing);
    assert!(closing.lifecycle && closing.snapshots);
    let mut late = ObservationWakes::new();
    hub.publish_lagged_deferred(&mut late, 1);
    hub.publish_deferred(&mut late, event(membership(), 2));
    assert!(!late.lifecycle, "a closed hub publishes nothing");
}

#[test]
fn lifecycle_close_wakes_parked_receivers() {
    let mut hub = LifecycleHub::new();
    let mut events = hub.subscribe();
    assert_eq!(events.recv(&hub), Poll::Pending);

    assert!(hub.close());
    assert!(!hub.close(), "a hub closes once");

    assert_eq!(events.recv(&hub), Poll::Ready(None));
}

#[test]
fn lifecycle_publication_that_lost_the_close_race_appends_nothing() {
    let membership = membership();
    let mut hub = LifecycleHub::new();
    let mut events = hub.subscribe();
    hub.close();

    // A publisher that saw an open hub and then lost the race to the close appends nothing.
    hub.publish_past_fast_path(event(membership, 1));

    assert!(matches!(
        events.try_recv(&hub),
        Err(LifecycleTryRecvError::Closed)
    ));
}

#[test]
fn a_retained_event_after_explicit_lag_remains_subject_to_later_overflow() {
    let membership = membership();
    let mut hub = LifecycleHub::new();
    let mut events = hub.subscribe();

    hub.publish_lagged(1);
    hub.publish(event(membership, 1));
    assert_eq!(events.try_recv(&hub), Ok(LifecycleItem::Lagged { dropped: 1 }));

    for seq in 2..=(LIFECYCLE_EVENT_CAPACITY as u64 + 2) {
        hub.publish(event(membership, seq));
    }
    assert_eq!(
        events.try_recv(&hub),
        Ok(LifecycleItem::Lagged { dropped: 2 }),
        "the prior retained event and the next oldest event are both evicted"
    );
    let LifecycleItem::Event(first_retained) =
        events.try_recv(&hub).expect("the retained suffix follows lag")
    else {
        panic!("expected the retained suffix");
    };
    assert_eq!(first_retained.seq.get(), 3);
}

#[test]
fn lifecycle_close_drains_the_queued_prefix_and_rejects_late_publication() {
    let membership = membership();
    let mut hub = LifecycleHub::new();
    let mut events = hub.subscribe();

    hub.publish_lagged(2);
    hub.publish(event(membership, 1));
    hub.close();
    hub.publish_lagged(3);
    hub.publish(event(membership, 2));

    assert_eq!(events.try_recv(&hub), Ok(LifecycleItem::Lagged { dropped: 2 }));
    assert_eq!(events.try_recv(&hub), Ok(LifecycleItem::Event(event(membership, 1))));
    assert_eq!(events.try_recv(&hub), Err(LifecycleTryRecvError::Closed));
    assert_eq!(
        hub.subscribe().try_recv(&hub),
        Err(LifecycleTryRecvError::Closed),
        "post-close subscribers start at the drained terminal edge"
    );
}

#[test]
fn within_the_bound_every_event_is_read_in_order() {
    let membership = membership();
    let mut hub = LifecycleHub::new();
    let mut events = hub.subscribe();
    assert_eq!(events.try_recv(&hub), Err(LifecycleTryRecvError::Empty));
    for seq in 1..=(LIFECYCLE_EVENT_CAPACITY as u64) {
        assert!(hub.publish(event(membership, seq)));
    }
    for seq in 1..=(LIFECYCLE_EVENT_CAPACITY as u64) {
        assert_eq!(
            events.try_recv(&hub),
            Ok(LifecycleItem::Event(event(membership, seq)))
        );
    }
    assert_eq!(events.try_recv(&hub), Err(LifecycleTryRecvError::Empty));
    let mut late = hub.subscribe();
    assert_eq!(
        late.try_recv(&hub),
        Err(LifecycleTryRecvError::Empty),
        "a subscription starts at the present"
    );
}

#[test]
fn a_snapshot_finds_children_and_descendants_by_name() {
    let mut inner = snapshot(ScopeState::Running);
    inner.lifecycle_seq = LifecycleSeq::new(4);
    inner.children.push(child("leaf", 3, None));
    let mut outer = snapshot(ScopeState::Running);
    outer.lifecycle_seq = LifecycleSeq::new(9);
    outer.children.push(child("task", 1, None));
    outer.children.push(child("scope", 2, Some(inner)));

    assert_eq!(outer.child(&id("task")).map(|found| found.membership.lineage), Some(1));
    assert!(outer.child(&id("leaf")).is_none());
    let leaf = outer.descendant(&vec![id("scope"), id("leaf")]);
    assert_eq!(leaf.map(|found| found.membership.lineage), Some(3));
    assert!(outer.descendant(&Vec::new()).is_none());
    assert!(outer.descendant(&vec![id("task"), id("leaf")]).is_none());

    assert_eq!(
        outer.watermark(Membership { lineage: 2, generation: 1 }),
        Some(LifecycleSeq::new(4))
    );
    assert_eq!(outer.watermark(Membership { lineage: 1, generation: 1 }), None);
    assert_eq!(outer.watermark(Membership { lineage: 7, generation: 1 }), None);
}

#[test]
fn terminal_states_are_told_apart() {
    let exit = Exit::never_started();
    assert!(!exit.started);
    assert!(ChildState::Stopped { exit }.is_terminal());
    assert!(ChildState::StartupAborted { exit }.is_terminal());
    for state in [
        ChildState::Admitted,
        ChildState::Starting,
        ChildState::Running,
        ChildState::Stopping,
        ChildState::Restarting,
    ] {
        assert!(!state.is_terminal());
    }
    assert!(ScopeState::Stopped { reason: StopReason::Finished }.is_stopped());
    for state in [
        ScopeState::Unstarted,
        ScopeState::Starting,
        ScopeState::Running,
        ScopeState::StartupFailed,
        ScopeState::Draining,
    ] {
        assert!(!state.is_stopped());
    }
}

#[test]
fn the_last_sequence_number_marks_exhaustion() {
    assert_eq!(LifecycleSeq::exhausted().get(), u64::MAX);
    assert_eq!(LifecycleSeq::new(3).get(), 3);
}

#[test]
fn observation_errors_have_their_own_words() {
    assert_eq!(
        LifecycleTryRecvError::Empty.message(),
        "lifecycle subscription is empty"
    );
    assert_eq!(
        LifecycleTryRecvError::Closed.message(),
        "lifecycle subscription is closed"
    );
    assert_eq!(SnapshotClosed.message(), "scope snapshot watch is closed");
    assert_eq!(WaitError::TimedOut.message(), "child wait timed out");
    let terminated = WaitError::ScopeTerminated { state: ScopeState::Draining };
    assert_eq!(terminated.message(), "scope terminated before a child matched");
}

#[test]
fn a_cloned_event_is_equal_to_its_source() {
    let scope = membership();
    let incarnation = Incarnation { membership: scope, ordinal: 1 };
    let kinds = [
        LifecycleEventKind::Added { id: id("a"), membership: scope },
        LifecycleEventKind::Started { id: id("a"), membership: scope, incarnation },
        LifecycleEventKind::Ready { id: id("a"), membership: scope, incarnation },
        LifecycleEventKind::Exited {
            id: id("a"),
            membership: scope,
            incarnation,
            exit: Exit::never_started(),
        },
        LifecycleEventKind::RestartScheduled {
            id: id("a"),
            membership: scope,
            attempt: RestartAttempt(2),
            delay: Duration::from_secs(1),
        },
        LifecycleEventKind::Removed {
            id: id("a"),
            membership: scope,
            last_incarnation: Some(incarnation),
        },
        LifecycleEventKind::ScopeState { state: ScopeState::Draining },
    ];
    for kind in kinds {
        let original = LifecycleEvent {
            scope_path: vec![id("root"), id("scope")],
            scope,
            seq: LifecycleSeq::new(1),
            kind,
        };
        assert_eq!(original.clone(), original);
    }
}
