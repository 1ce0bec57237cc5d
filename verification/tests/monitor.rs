use shelterwood::exit::Exit;
use shelterwood::identity::{ChildId, Incarnation, Membership};
use shelterwood::mailbox::handle::{ActorRef, MemberCell};
use shelterwood::monitor::{
    MonitorDelivery, MonitorEventKind, MonitorMemberKind, MonitorSink, MonitorSource, ScopeRef,
    Sealed, TaskRef, MONITOR_EVENT_CAPACITY,
};
use shelterwood::raw::latch::LatchTable;

const SLOT: u64 = 4;

fn member() -> MemberCell {
    MemberCell::new(
        SLOT,
        ChildId::new("target".to_string()),
        Membership { lineage: 1, generation: 1 },
    )
}

fn incarnation(ordinal: u64) -> Incarnation {
    Incarnation { membership: member().membership, ordinal }
}

fn started(ordinal: u64) -> MonitorEventKind {
    MonitorEventKind::Started { incarnation: incarnation(ordinal) }
}

fn exited(ordinal: u64) -> MonitorEventKind {
    MonitorEventKind::Exited {
        incarnation: incarnation(ordinal),
        exit: Exit { started: true, failure: true, evidence: 1 },
    }
}

fn removed() -> MonitorEventKind {
    MonitorEventKind::Removed { last_incarnation: Some(incarnation(1)) }
}

struct Watch {
    source: MonitorSource,
    latches: LatchTable,
    sink: MonitorSink<&'static str>,
}

impl Watch {
    fn new() -> Watch {
        let mut latches = LatchTable::new();
        let finished = latches.create();
        let target = ActorRef::<u8>::new(&member()).monitor_target(&member());
        Watch {
            source: MonitorSource::new(),
            latches,
            sink: MonitorSink::new(&target, "wrap", finished),
        }
    }

    fn publish(&mut self, kind: MonitorEventKind) {
        self.sink.publish(kind, &mut self.source);
    }

    fn next(&mut self) -> Option<MonitorEventKind> {
        self.pop_through(self.source.watermark()).map(|delivery| delivery.event.kind)
    }

    fn pop_through(&mut self, limit: u64) -> Option<MonitorDelivery<&'static str>> {
        self.sink.pop_through(limit, &mut self.latches)
    }

    fn finished(&self) -> bool {
        self.latches.is_fired(self.sink.finished_latch())
    }
}

#[test]
fn a_target_names_its_member_and_kind() {
    let actor = ActorRef::<u8>::new(&member()).monitor_target(&member());
    assert_eq!(actor.member_id.as_str(), "target");
    assert_eq!(actor.membership, member().membership);
    assert_eq!(actor.kind, MonitorMemberKind::Actor);
    let task = TaskRef { slot: SLOT }.monitor_target(&member());
    assert_eq!(task.kind, MonitorMemberKind::Task);
    let scope = ScopeRef { slot: SLOT }.monitor_target(&member());
    assert_eq!(scope.kind, MonitorMemberKind::Scope);
}

#[test]
fn transitions_are_delivered_in_order_with_their_source() {
    let mut watch = Watch::new();
    watch.publish(started(1));
    watch.publish(exited(1));
    assert!(watch.source.watcher(), "a publication pulses the watcher");
    assert!(!watch.source.watcher());
    let limit = watch.source.watermark();
    let first = watch.pop_through(limit).expect("the start is queued");
    assert_eq!(first.wrap, "wrap");
    assert_eq!(first.event.member_id.as_str(), "target");
    assert_eq!(first.event.member_kind, MonitorMemberKind::Actor);
    assert_eq!(first.event.membership, member().membership);
    assert_eq!(first.event.kind, started(1));
    assert_eq!(first.event.clone(), first.event);
    assert_eq!(watch.next(), Some(exited(1)));
    assert_eq!(watch.next(), None);
}

#[test]
fn repeated_transitions_are_queued_once() {
    let mut watch = Watch::new();
    watch.publish(started(1));
    watch.publish(started(1));
    watch.publish(exited(1));
    watch.publish(exited(1));
    watch.publish(started(2));
    assert_eq!(watch.next(), Some(started(1)));
    assert_eq!(watch.next(), Some(exited(1)));
    assert_eq!(watch.next(), Some(started(2)));
    assert_eq!(watch.next(), None);
}

#[test]
fn an_overflowing_watch_reports_its_loss_first() {
    let mut watch = Watch::new();
    for ordinal in 1..=(MONITOR_EVENT_CAPACITY as u64 + 3) {
        watch.publish(started(ordinal));
    }
    assert_eq!(watch.next(), Some(MonitorEventKind::Lagged { dropped: 3 }));
    assert_eq!(watch.next(), Some(started(4)));
}

#[test]
fn the_end_of_the_target_is_delivered_last() {
    let mut watch = Watch::new();
    watch.publish(started(1));
    watch.publish(removed());
    watch.publish(started(2));
    assert!(watch.sink.is_active());
    assert_eq!(watch.next(), Some(started(1)));
    assert!(!watch.finished());
    assert_eq!(watch.next(), Some(removed()));
    assert!(watch.finished());
    assert!(!watch.sink.is_active());
    assert_eq!(watch.next(), None);
}

#[test]
fn a_delivery_stops_at_its_limit() {
    let mut watch = Watch::new();
    watch.publish(started(1));
    let limit = watch.source.watermark();
    watch.publish(exited(1));
    assert!(watch.pop_through(limit).is_some());
    assert!(watch.pop_through(limit).is_none());
    assert_eq!(watch.next(), Some(exited(1)));
}

#[test]
fn a_cancelled_watch_delivers_nothing_more() {
    let mut watch = Watch::new();
    watch.publish(started(1));
    assert!(watch.sink.cancel(&mut watch.source, &mut watch.latches));
    assert!(watch.finished());
    assert!(!watch.sink.cancel(&mut watch.source, &mut watch.latches));
    watch.publish(exited(1));
    assert_eq!(watch.next(), None);
}

#[test]
fn a_replaced_wrapper_starts_over() {
    let mut watch = Watch::new();
    watch.publish(started(1));
    watch.sink.replace("other", &mut watch.source);
    assert_eq!(watch.sink.membership(), member().membership);
    assert_eq!(watch.next(), None, "what was queued for the old wrapper is forgotten");
    watch.publish(started(1));
    assert_eq!(watch.next(), None, "the start was reported already");
    watch.publish(exited(1));
    let limit = watch.source.watermark();
    let delivery = watch.pop_through(limit);
    assert_eq!(delivery.map(|delivered| delivered.wrap), Some("other"));
}
