//! What observers of a scope are told: which event a read finds, which child a
//! path names, and when a watch has news.

use crate::identity::Membership;
use crate::observe::lifecycle::{HubModel, LifecycleEvents, Reading};
use crate::observe::snapshot::{
    at_path, first_labelled, next_generation, watermark_among, ChildSnapshot, ScopeSnapshot,
    SnapshotHub, SnapshotReceiver,
};
use crate::observe::{EventModel, LifecycleSeq};
use vstd::prelude::*;

verus! {

/// An open hub takes in every event as its newest, under the next position, and
/// lets go of its oldest only where it is full; a closed one takes in nothing.
pub proof fn law_an_open_hub_takes_in_every_event(hub: HubModel, event: EventModel)
    requires
        hub.wf(),
    ensures
        hub.closed ==> hub.appended(event) == hub,
        !hub.closed ==> {
            let after = hub.appended(event);
            &&& after.published == hub.published + 1
            &&& after.retained.len() > 0
            &&& after.retained.last() == event
            &&& hub.retained.len() < 128 ==> after.retained.drop_last() == hub.retained
            &&& hub.retained.len() == 128 ==> after.retained.drop_last() == hub.retained.skip(1)
            &&& after.explicit_lag == hub.explicit_lag
            &&& !after.closed
        },
{
    if !hub.closed {
        let after = hub.appended(event);
        if hub.retained.len() < 128 {
            assert(after.retained.drop_last() =~= hub.retained);
        } else {
            assert(after.retained.drop_last() =~= hub.retained.skip(1));
        }
    }
}

/// An open hub adds up the losses reported to it, up to the numeric limit.
pub proof fn law_reported_losses_add_up(hub: HubModel, dropped: u64)
    ensures
        !hub.closed && hub.explicit_lag + dropped <= u64::MAX ==> hub.lagged(dropped)
            == (HubModel { explicit_lag: (hub.explicit_lag + dropped) as u64, ..hub }),
        !hub.closed && hub.explicit_lag + dropped > u64::MAX ==> hub.lagged(dropped)
            == (HubModel { explicit_lag: u64::MAX, ..hub }),
        hub.closed ==> hub.lagged(dropped) == hub,
{
}

/// What a read finds and where it leaves the subscription. Losses are told
/// first, those reported together with those of the log. Otherwise the event at
/// the subscription's position is handed out; at the end of the log a closed hub
/// reads as closed and an open one as empty.
pub proof fn law_a_read_finds_the_event_at_its_position(events: LifecycleEvents, hub: HubModel)
    requires
        hub.wf(),
        events.reads(hub),
        hub.published <= u64::MAX,
    ensures
        ({
            let first = hub.published - hub.retained.len();
            let missed: int = if events.next < first {
                first - events.next
            } else {
                0
            };
            let reported = hub.explicit_lag - events.seen_explicit_lag;
            let after = events.after_reading(hub);
            &&& reported + missed > 0 ==> {
                &&& reported + missed <= u64::MAX ==> events.reading(hub) == Reading::Lagged(
                    (reported + missed) as u64,
                )
                &&& reported + missed > u64::MAX ==> events.reading(hub) == Reading::Lagged(
                    u64::MAX,
                )
                &&& after.next == events.next + missed
                &&& after.seen_explicit_lag == hub.explicit_lag
            }
            &&& reported + missed == 0 && events.next < hub.published ==> {
                &&& events.reading(hub) == Reading::Event(hub.retained[events.next - first])
                &&& after.next == events.next + 1
                &&& after.seen_explicit_lag == events.seen_explicit_lag
            }
            &&& reported + missed == 0 && events.next == hub.published ==> {
                &&& hub.closed ==> events.reading(hub) is Closed
                &&& !hub.closed ==> events.reading(hub) is Empty
                &&& after == events
            }
        }),
{
}

/// A subscriber that has read everything reads the next event published, and
/// then waits again.
pub proof fn law_a_published_event_is_read_next(
    events: LifecycleEvents,
    hub: HubModel,
    event: EventModel,
)
    requires
        hub.wf(),
        !hub.closed,
        hub.published < u64::MAX,
        events.next == hub.published,
        events.seen_explicit_lag == hub.explicit_lag,
    ensures
        ({
            let after = hub.appended(event);
            &&& events.reading(hub) is Empty
            &&& events.reading(after) == Reading::Event(event)
            &&& events.after_reading(after).reading(after) is Empty
        }),
{
    law_an_open_hub_takes_in_every_event(hub, event);
    let after = hub.appended(event);
    assert(after.retained[after.retained.len() - 1] == event);
}

/// Two events published one after the other are read in that order.
pub proof fn law_events_are_read_in_order(
    events: LifecycleEvents,
    hub: HubModel,
    first: EventModel,
    second: EventModel,
)
    requires
        hub.wf(),
        !hub.closed,
        hub.published < u64::MAX - 1,
        events.next == hub.published,
        events.seen_explicit_lag == hub.explicit_lag,
    ensures
        ({
            let after = hub.appended(first).appended(second);
            &&& events.reading(after) == Reading::Event(first)
            &&& events.after_reading(after).reading(after) == Reading::Event(second)
        }),
{
    let middle = hub.appended(first);
    let after = middle.appended(second);
    assert(middle.retained[middle.retained.len() - 1] == first);
    assert(after.retained[after.retained.len() - 1] == second);
    assert(after.retained[after.retained.len() - 2] == first);
}

/// A lookup finds the first child with the label, and nothing exactly where no
/// child has it.
pub proof fn law_a_lookup_finds_the_first_child(
    children: Seq<ChildSnapshot>,
    id: Seq<char>,
    place: int,
)
    ensures
        0 <= place < children.len() && children[place].id@ == id && (forall|i: int|
            0 <= i < place ==> (#[trigger] children[i]).id@ != id) ==> first_labelled(children, id)
            == Some(children[place]),
        (forall|i: int| 0 <= i < children.len() ==> (#[trigger] children[i]).id@ != id)
            ==> first_labelled(children, id) is None,
    decreases children.len(),
{
    if children.len() > 0 {
        let rest = children.skip(1);
        law_a_lookup_finds_the_first_child(rest, id, place - 1);
        if 0 < place < children.len() && (forall|i: int|
            0 <= i < place ==> (#[trigger] children[i]).id@ != id) {
            assert(children[0].id@ != id);
            assert(rest[place - 1] == children[place]);
            assert forall|i: int| 0 <= i < place - 1 implies (#[trigger] rest[i]).id@ != id by {
                assert(rest[i] == children[i + 1]);
            }
        }
        if forall|i: int| 0 <= i < children.len() ==> (#[trigger] children[i]).id@ != id {
            assert(children[0].id@ != id);
            assert forall|i: int| 0 <= i < rest.len() implies (#[trigger] rest[i]).id@ != id by {
                assert(rest[i] == children[i + 1]);
            }
        }
    }
}

/// A path of one label names the child with it; a longer one goes on inside
/// that child, and names nothing where the child has no nested snapshot.
pub proof fn law_a_path_goes_label_by_label(
    scope: ScopeSnapshot,
    place: int,
    rest: Seq<Seq<char>>,
)
    requires
        0 <= place < scope.children@.len(),
        forall|i: int|
            0 <= i < place ==> (#[trigger] scope.children@[i]).id@
                != scope.children@[place].id@,
    ensures
        ({
            let child = scope.children@[place];
            &&& at_path(scope, seq![child.id@]) == Some(child)
            &&& rest.len() > 0 ==> at_path(scope, seq![child.id@] + rest) == match child.nested {
                Some(nested) => at_path(*nested, rest),
                None => None,
            }
            &&& at_path(scope, Seq::<Seq<char>>::empty()) is None
        }),
{
    let child = scope.children@[place];
    law_a_lookup_finds_the_first_child(scope.children@, child.id@, place);
    let path = seq![child.id@] + rest;
    assert(path.skip(1) =~= rest);
    assert(path[0] == child.id@);
}

/// A path whose first label no child has names nothing.
pub proof fn law_an_unknown_label_names_nothing(
    scope: ScopeSnapshot,
    id: Seq<char>,
    rest: Seq<Seq<char>>,
)
    requires
        forall|i: int|
            0 <= i < scope.children@.len() ==> (#[trigger] scope.children@[i]).id@ != id,
    ensures
        at_path(scope, seq![id] + rest) is None,
{
    law_a_lookup_finds_the_first_child(scope.children@, id, 0);
    assert((seq![id] + rest)[0] == id);
}

/// The watermark of a membership is that of the first child that is it, or that
/// has it inside; children that neither are nor hold it do not matter.
pub proof fn law_a_watermark_belongs_to_its_membership(
    children: Seq<ChildSnapshot>,
    membership: Membership,
    seq: LifecycleSeq,
)
    requires
        children.len() > 0,
    ensures
        ({
            let child = children[0];
            let rest = children.skip(1);
            &&& child.membership == membership && child.scope_seq == Some(seq) ==> watermark_among(
                children,
                membership,
            ) == Some(seq)
            &&& child.membership == membership && child.scope_seq is None ==> watermark_among(
                children,
                membership,
            ) == watermark_among(rest, membership)
            &&& child.membership != membership && child.nested is None ==> watermark_among(
                children,
                membership,
            ) == watermark_among(rest, membership)
            &&& child.membership != membership && child.nested is Some && watermark_among(
                child.nested->Some_0.children@,
                membership,
            ) is Some ==> watermark_among(children, membership) == watermark_among(
                child.nested->Some_0.children@,
                membership,
            )
            &&& child.membership != membership && child.nested is Some && watermark_among(
                child.nested->Some_0.children@,
                membership,
            ) is None ==> watermark_among(children, membership) == watermark_among(
                rest,
                membership,
            )
        }),
        watermark_among(Seq::<ChildSnapshot>::empty(), membership) is None,
{
    assert(children.skip(1) =~= children.subrange(1, children.len() as int));
}

/// A watch publishes while it is open and someone watches, each publication
/// under a new generation; a receiver has news exactly where the newest
/// generation is not the one it has seen, and what it reads is what was
/// published last.
pub proof fn law_a_receiver_has_news_after_a_publication<S>(
    receiver: SnapshotReceiver<S>,
    before: SnapshotHub<S>,
    after: SnapshotHub<S>,
    snapshot: S,
)
    requires
        before.wf(),
        before.state is Some,
        receiver.terminal is None,
        receiver.seen_generation == before.state->Some_0.generation,
        before.state->Some_0.generation < u64::MAX,
        after.state is Some,
        after.state->Some_0.generation == next_generation(before.state->Some_0.generation),
        after.state->Some_0.snapshot == snapshot,
    ensures
        before.watched() <==> !before.closed && before.receivers > 0,
        !receiver.behind(before),
        receiver.behind(after),
        receiver.newest(after) == snapshot,
        after.state->Some_0.generation == before.state->Some_0.generation + 1,
{
}

/// A subscriber of a closed watch has its one snapshot and never any news.
pub proof fn law_a_late_subscriber_keeps_its_snapshot<S>(hub: SnapshotHub<S>, initial: S)
    requires
        hub.closed,
    ensures
        ({
            let receiver = SnapshotReceiver { terminal: Some(initial), seen_generation: 0 };
            &&& receiver.reads(hub)
            &&& !receiver.behind(hub)
            &&& receiver.newest(hub) == initial
            &&& !hub.watched()
        }),
{
}

/// A watch without a state or without receivers reaches no one.
pub proof fn law_an_unwatched_hub_publishes_nothing<S>(hub: SnapshotHub<S>)
    ensures
        hub.closed || hub.state is None || hub.receivers == 0 <==> !hub.watched(),
{
}

/// A snapshot is alike to another exactly where everything it says of itself is
/// the same and its children are alike one by one.
pub proof fn law_alike_snapshots_say_the_same(
    scope: ScopeSnapshot,
    copy: ScopeSnapshot,
    place: int,
)
    requires
        scope.alike(copy),
        0 <= place < scope.children@.len(),
    ensures
        copy.children@.len() == scope.children@.len(),
        copy.state == scope.state,
        copy.kind == scope.kind,
        copy.strategy == scope.strategy,
        copy.intensity == scope.intensity,
        copy.total_restarts == scope.total_restarts,
        copy.lifecycle_seq == scope.lifecycle_seq,
        ({
            let child = scope.children@[place];
            let copied = copy.children@[place];
            &&& copied.id == child.id
            &&& copied.membership == child.membership
            &&& copied.incarnation == child.incarnation
            &&& copied.state == child.state
            &&& copied.last_exit == child.last_exit
            &&& copied.membership_status == child.membership_status
            &&& copied.restart_count == child.restart_count
            &&& copied.restart_policy == child.restart_policy
            &&& copied.retention == child.retention
            &&& copied.restart_at == child.restart_at
            &&& copied.scope_seq == child.scope_seq
            &&& child.nested is None <==> copied.nested is None
            &&& child.nested matches Some(nested) ==> nested.alike(*copied.nested->Some_0)
        }),
{
    assert(scope.children@[place].alike(copy.children@[place]));
}

} // verus!
