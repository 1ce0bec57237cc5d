//! Peer monitoring: each watch has a bounded private queue of its target's
//! transitions.

use crate::exit::Exit;
use crate::identity::{ChildId, Incarnation, Membership};
use crate::mailbox::handle::{ActorRef, MemberCell};
use crate::raw::latch::{LatchId, LatchTable};
use std::collections::VecDeque;
use vstd::prelude::*;

verus! {

/// Number of monitor edges retained for each watch.
pub const MONITOR_EVENT_CAPACITY: usize = 128;

/// Kind of membership named by a monitor event.
#[derive(Clone, Copy, Debug, PartialEq, Eq, Structural, Hash)]
pub enum MonitorMemberKind {
    /// Actor membership.
    Actor,
    /// Task membership.
    Task,
    /// Scope membership.
    Scope,
}

/// One peer-membership event delivered through an actor's monitor source.
#[derive(Debug, PartialEq, Eq)]
pub struct MonitorEvent {
    /// Target's child id in its supervising scope.
    pub member_id: ChildId,
    /// Target handle kind.
    pub member_kind: MonitorMemberKind,
    /// Stable target membership identity.
    pub membership: Membership,
    /// Target transition or loss marker.
    pub kind: MonitorEventKind,
}

impl Clone for MonitorEvent {
    fn clone(&self) -> (copy: MonitorEvent)
        ensures
            copy == *self,
    {
        MonitorEvent {
            member_id: self.member_id.clone(),
            member_kind: self.member_kind,
            membership: self.membership,
            kind: self.kind,
        }
    }
}

/// Peer-monitor event inventory.
#[derive(Clone, Copy, Debug, PartialEq, Eq)]
#[non_exhaustive]
pub enum MonitorEventKind {
    /// A target incarnation started.
    Started {
        /// Newly running incarnation.
        incarnation: Incarnation,
    },
    /// A target incarnation exited.
    Exited {
        /// Exited incarnation.
        incarnation: Incarnation,
        /// Classified exit.
        exit: Exit,
    },
    /// Older events were dropped from this watch's private queue.
    Lagged {
        /// Exact number of dropped events in this overflow episode.
        dropped: u64,
    },
    /// The target membership terminalized.
    Removed {
        /// Last target incarnation, or `None` when it never started.
        last_incarnation: Option<Incarnation>,
    },
}

/// A membership a watch can be placed on.
#[derive(Debug)]
pub struct MonitorTarget {
    /// Target's child id in its supervising scope.
    pub member_id: ChildId,
    /// Stable target membership identity.
    pub membership: Membership,
    /// Target handle kind.
    pub kind: MonitorMemberKind,
}

/// What makes a handle's target known to a watch.
pub trait Sealed {
    /// The slot the handle addresses.
    spec fn addressed(&self) -> u64;

    /// The handle's kind.
    spec fn member_kind(&self) -> MonitorMemberKind;

    /// The target of a watch on this handle, whose slot is `member`.
    fn monitor_target(&self, member: &MemberCell) -> (target: MonitorTarget)
        requires
            member.slot == self.addressed(),
        ensures
            target.member_id == member.id,
            target.membership == member.membership,
            target.kind == self.member_kind(),
    ;
}

/// A handle accepted by watch operations.
pub trait WatchTarget: Sealed {

}

/// A handle to a supervised task.
#[derive(Clone, Copy, Debug, PartialEq, Eq, Structural, Hash)]
pub struct TaskRef {
    /// The addressed slot.
    pub slot: u64,
}

/// A handle to a scope.
#[derive(Clone, Copy, Debug, PartialEq, Eq, Structural, Hash)]
pub struct ScopeRef {
    /// The addressed slot.
    pub slot: u64,
}

impl<M> Sealed for ActorRef<M> {
    open spec fn addressed(&self) -> u64 {
        self.slot
    }

    open spec fn member_kind(&self) -> MonitorMemberKind {
        MonitorMemberKind::Actor
    }

    fn monitor_target(&self, member: &MemberCell) -> (target: MonitorTarget) {
        MonitorTarget {
            member_id: member.id.clone(),
            membership: member.membership,
            kind: MonitorMemberKind::Actor,
        }
    }
}

impl Sealed for TaskRef {
    open spec fn addressed(&self) -> u64 {
        self.slot
    }

    open spec fn member_kind(&self) -> MonitorMemberKind {
        MonitorMemberKind::Task
    }

    fn monitor_target(&self, member: &MemberCell) -> (target: MonitorTarget) {
        MonitorTarget {
            member_id: member.id.clone(),
            membership: member.membership,
            kind: MonitorMemberKind::Task,
        }
    }
}

impl Sealed for ScopeRef {
    open spec fn addressed(&self) -> u64 {
        self.slot
    }

    open spec fn member_kind(&self) -> MonitorMemberKind {
        MonitorMemberKind::Scope
    }

    fn monitor_target(&self, member: &MemberCell) -> (target: MonitorTarget) {
        MonitorTarget {
            member_id: member.id.clone(),
            membership: member.membership,
            kind: MonitorMemberKind::Scope,
        }
    }
}

impl<M> WatchTarget for ActorRef<M> {

}

impl WatchTarget for TaskRef {

}

impl WatchTarget for ScopeRef {

}

/// One actor's monitor source: numbers the events of all its watches.
#[derive(Clone, Copy, Debug, PartialEq, Eq, Structural)]
pub struct MonitorSource {
    /// The last sequence number given out.
    pub last_sequence: u64,
    /// Whether the actor is to be told of a change.
    pub pulsed: bool,
}

impl MonitorSource {
    /// A source that has given out nothing.
    pub fn new() -> (source: MonitorSource)
        ensures
            source == (MonitorSource { last_sequence: 0, pulsed: false }),
    {
        MonitorSource { last_sequence: 0, pulsed: false }
    }

    /// The next sequence number, saturating at the numeric limit.
    pub open spec fn following(self) -> u64 {
        if self.last_sequence < u64::MAX {
            (self.last_sequence + 1) as u64
        } else {
            u64::MAX
        }
    }

    /// Gives out the next sequence number, saturating at the numeric limit.
    pub fn next_sequence(&mut self) -> (sequence: u64)
        ensures
            sequence == old(self).following(),
            *final(self) == (MonitorSource { last_sequence: sequence, ..*old(self) }),
    {
        self.last_sequence = self.last_sequence.saturating_add(1);
        self.last_sequence
    }

    /// The newest sequence number: a cut that later events are behind.
    pub fn watermark(&self) -> (sequence: u64)
        ensures
            sequence == self.last_sequence,
    {
        self.last_sequence
    }

    /// Takes notice of what changed; reports whether anything did.
    pub fn watcher(&mut self) -> (pulsed: bool)
        ensures
            pulsed == old(self).pulsed,
            *final(self) == (MonitorSource { pulsed: false, ..*old(self) }),
    {
        let pulsed = self.pulsed;
        self.pulsed = false;
        pulsed
    }

    /// Notes a change.
    pub fn pulse(&mut self)
        ensures
            *final(self) == (MonitorSource { pulsed: true, ..*old(self) }),
    {
        self.pulsed = true;
    }
}

/// A queued transition and its place among all of the actor's watches.
#[derive(Clone, Copy, Debug, PartialEq, Eq)]
pub struct SequencedMonitorEvent {
    /// Its place.
    pub sequence: u64,
    /// The transition.
    pub kind: MonitorEventKind,
}

/// Stands for events a watch had to drop.
#[derive(Clone, Copy, Debug, PartialEq, Eq, Structural)]
pub struct LagMarker {
    /// The place of the first of them.
    pub sequence: u64,
    /// How many they are.
    pub dropped: u64,
}

/// Everything one watch holds.
#[verifier::ext_equal]
pub struct SinkModel {
    /// Queued transitions, oldest first.
    pub events: Seq<SequencedMonitorEvent>,
    /// What had to be dropped since the last delivery of a marker.
    pub lagged: Option<LagMarker>,
    /// Whether the watch still delivers.
    pub active: bool,
    /// Whether the target's end was queued.
    pub terminal: bool,
    /// The last start queued.
    pub last_started: Option<Incarnation>,
    /// The last exit queued.
    pub last_exited: Option<Incarnation>,
}

/// One watch.
#[derive(Debug)]
pub struct MonitorSink<W> {
    /// Target's child id in its supervising scope.
    pub member_id: ChildId,
    /// Target handle kind.
    pub member_kind: MonitorMemberKind,
    /// Stable target membership identity.
    pub membership: Membership,
    /// What makes the watcher's messages from events.
    pub wrap: W,
    /// Queued transitions, oldest first.
    pub events: VecDeque<SequencedMonitorEvent>,
    /// What had to be dropped.
    pub lagged: Option<LagMarker>,
    /// Whether the watch still delivers.
    pub active: bool,
    /// Whether the target's end was queued.
    pub terminal: bool,
    /// The last start queued.
    pub last_started: Option<Incarnation>,
    /// The last exit queued.
    pub last_exited: Option<Incarnation>,
    /// Fires when the watch is over.
    pub finished: LatchId,
}

/// A delivered event and what makes a message from it.
#[derive(Debug)]
pub struct MonitorDelivery<W> {
    /// The event.
    pub event: MonitorEvent,
    /// What makes the message.
    pub wrap: W,
}

/// What a delivery takes out of a watch.
pub enum Popped {
    /// The marker of what was dropped.
    Marker(LagMarker),
    /// The oldest transition.
    Event(SequencedMonitorEvent),
}

impl Popped {
    /// What is delivered.
    pub open spec fn kind(self) -> MonitorEventKind {
        match self {
            Popped::Marker(lagged) => MonitorEventKind::Lagged { dropped: lagged.dropped },
            Popped::Event(event) => event.kind,
        }
    }
}

/// How many dropped events a marker stands for.
pub open spec fn dropped_in(lagged: Option<LagMarker>) -> nat {
    match lagged {
        Some(marker) => marker.dropped as nat,
        None => 0,
    }
}

impl SinkModel {
    /// What holds of every watch: the queue is bounded and in order, and a
    /// marker stands for events before those queued.
    pub open spec fn wf(self) -> bool {
        &&& self.events.len() <= MONITOR_EVENT_CAPACITY
        &&& forall|i: int, j: int|
            0 <= i < j < self.events.len() ==> (#[trigger] self.events[i]).sequence <= (
            #[trigger] self.events[j]).sequence
        &&& self.lagged matches Some(marker) ==> marker.dropped > 0 && forall|i: int|
            0 <= i < self.events.len() ==> marker.sequence <= (#[trigger] self.events[i]).sequence
    }

    /// Whether every queued transition comes before sequence number `newest`.
    pub open spec fn queued_by(self, newest: u64) -> bool {
        &&& forall|i: int|
            0 <= i < self.events.len() ==> (#[trigger] self.events[i]).sequence <= newest
        &&& self.lagged matches Some(marker) ==> marker.sequence <= newest
    }

    /// Whether a transition is queued: the watch delivers, its target has not
    /// ended, and the same start or exit was not queued just before.
    pub open spec fn admits(self, kind: MonitorEventKind) -> bool {
        &&& self.active
        &&& !self.terminal
        &&& match kind {
            MonitorEventKind::Started { incarnation } => self.last_started != Some(incarnation),
            MonitorEventKind::Exited { incarnation, .. } => self.last_exited != Some(incarnation),
            _ => true,
        }
    }

    /// The watch once `kind` was published as `sequence`.
    pub open spec fn published(self, sequence: u64, kind: MonitorEventKind) -> SinkModel {
        if !self.admits(kind) {
            self
        } else {
            let full = self.events.len() == MONITOR_EVENT_CAPACITY;
            let kept = if full {
                self.events.skip(1)
            } else {
                self.events
            };
            SinkModel {
                events: kept.push(SequencedMonitorEvent { sequence, kind }),
                lagged: if full {
                    match self.lagged {
                        Some(marker) => Some(
                            LagMarker {
                                sequence: marker.sequence,
                                dropped: if marker.dropped < u64::MAX {
                                    (marker.dropped + 1) as u64
                                } else {
                                    u64::MAX
                                },
                            },
                        ),
                        None => Some(
                            LagMarker { sequence: self.events[0].sequence, dropped: 1 },
                        ),
                    }
                } else {
                    self.lagged
                },
                active: self.active,
                terminal: kind is Removed,
                last_started: match kind {
                    MonitorEventKind::Started { incarnation } => Some(incarnation),
                    _ => self.last_started,
                },
                last_exited: match kind {
                    MonitorEventKind::Exited { incarnation, .. } => Some(incarnation),
                    _ => self.last_exited,
                },
            }
        }
    }

    /// What a delivery up to `limit` takes out: a marker first, then the
    /// oldest transition.
    pub open spec fn next(self, limit: u64) -> Option<Popped> {
        if !self.active {
            None
        } else if self.lagged matches Some(marker) && marker.sequence <= limit {
            Some(Popped::Marker(self.lagged->Some_0))
        } else if self.events.len() > 0 && self.events[0].sequence <= limit {
            Some(Popped::Event(self.events[0]))
        } else {
            None
        }
    }

    /// The watch after that delivery; the target's end is the last one.
    pub open spec fn after_next(self, limit: u64) -> SinkModel {
        match self.next(limit) {
            None => self,
            Some(Popped::Marker(_)) => SinkModel { lagged: None, ..self },
            Some(Popped::Event(event)) => SinkModel {
                events: self.events.skip(1),
                active: !(event.kind is Removed),
                ..self
            },
        }
    }

    /// The watch with everything queued forgotten.
    pub open spec fn emptied(self) -> SinkModel {
        SinkModel { events: seq![], lagged: None, ..self }
    }
}

impl<W> MonitorSink<W> {
    /// Everything the watch holds.
    pub open spec fn view(&self) -> SinkModel {
        SinkModel {
            events: self.events@,
            lagged: self.lagged,
            active: self.active,
            terminal: self.terminal,
            last_started: self.last_started,
            last_exited: self.last_exited,
        }
    }

    /// Whether two states are of the same watch.
    pub open spec fn same_watch(&self, other: MonitorSink<W>) -> bool {
        &&& self.member_id == other.member_id
        &&& self.member_kind == other.member_kind
        &&& self.membership == other.membership
        &&& self.finished == other.finished
    }

    /// A watch on `target`.
    pub fn new(target: &MonitorTarget, wrap: W, finished: LatchId) -> (sink: MonitorSink<W>)
        ensures
            sink@.wf(),
            sink@ == (SinkModel {
                events: seq![],
                lagged: None,
                active: true,
                terminal: false,
                last_started: None,
                last_exited: None,
            }),
            sink.member_id == target.member_id,
            sink.member_kind == target.kind,
            sink.membership == target.membership,
            sink.wrap == wrap,
            sink.finished == finished,
    {
        let sink = MonitorSink {
            member_id: target.member_id.clone(),
            member_kind: target.kind,
            membership: target.membership,
            wrap,
            events: VecDeque::new(),
            lagged: None,
            active: true,
            terminal: false,
            last_started: None,
            last_exited: None,
            finished,
        };
        proof {
            assert(sink@.events =~= seq![]);
        }
        sink
    }

    /// The target's membership.
    pub fn membership(&self) -> (membership: Membership)
        ensures
            membership == self.membership,
    {
        self.membership
    }

    /// The latch that fires when the watch is over.
    pub fn finished_latch(&self) -> (latch: LatchId)
        ensures
            latch == self.finished,
    {
        self.finished
    }

    /// Whether the watch still delivers.
    pub fn is_active(&self) -> (active: bool)
        ensures
            active == self.active,
    {
        self.active
    }

    /// Replaces what makes messages from events; what is queued is forgotten.
    pub fn replace(&mut self, wrap: W, source: &mut MonitorSource)
        ensures
            final(self)@ == old(self)@.emptied(),
            final(self).wrap == wrap,
            final(self).same_watch(*old(self)),
            *final(source) == (MonitorSource { pulsed: true, ..*old(source) }),
    {
        self.wrap = wrap;
        self.events.clear();
        self.lagged = None;
        source.pulse();
        proof {
            assert(self@.events =~= seq![]);
        }
    }

    /// Ends the watch; reports whether it was still on.
    pub fn cancel(&mut self, source: &mut MonitorSource, latches: &mut LatchTable) -> (cancelled:
        bool)
        requires
            old(latches).has(old(self).finished),
        ensures
            cancelled == old(self)@.active,
            final(self).same_watch(*old(self)),
            !cancelled ==> *final(self) == *old(self) && *final(source) == *old(source)
                && final(latches)@ == old(latches)@,
            cancelled ==> {
                &&& final(self)@ == (SinkModel { active: false, ..old(self)@.emptied() })
                &&& final(self).wrap == old(self).wrap
                &&& *final(source) == (MonitorSource { pulsed: true, ..*old(source) })
                &&& final(latches)@ == old(latches)@.update(old(self).finished.0 as int, true)
            },
    {
        if !self.active {
            return false;
        }
        self.active = false;
        self.events.clear();
        self.lagged = None;
        let _ = latches.fire(self.finished);
        source.pulse();
        proof {
            assert(self@.events =~= seq![]);
        }
        true
    }

    /// Delivers what comes next up to `limit`: the marker of what was dropped,
    /// or the oldest transition. Delivering the target's end ends the watch.
    pub fn pop_through(&mut self, limit: u64, latches: &mut LatchTable) -> (delivery: Option<
        MonitorDelivery<W>,
    >)
        where W: Clone
        requires
            old(self)@.wf(),
            old(latches).has(old(self).finished),
        ensures
            final(self)@.wf(),
            final(self)@ == old(self)@.after_next(limit),
            final(self).same_watch(*old(self)),
            final(self).wrap == old(self).wrap,
            delivery is Some <==> old(self)@.next(limit) is Some,
            delivery matches Some(delivered) ==> {
                &&& delivered.event.kind == old(self)@.next(limit)->Some_0.kind()
                &&& delivered.event.member_id == old(self).member_id
                &&& delivered.event.member_kind == old(self).member_kind
                &&& delivered.event.membership == old(self).membership
                &&& cloned(old(self).wrap, delivered.wrap)
            },
            final(latches)@ == if old(self)@.active && !final(self)@.active {
                old(latches)@.update(old(self).finished.0 as int, true)
            } else {
                old(latches)@
            },
    {
        if !self.active {
            return None;
        }
        let mut kind: Option<MonitorEventKind> = None;
        let mut marked = false;
        if let Some(marker) = self.lagged {
            if marker.sequence <= limit {
                self.lagged = None;
                kind = Some(MonitorEventKind::Lagged { dropped: marker.dropped });
                marked = true;
            }
        }
        if !marked && self.events.len() > 0 && self.events[0].sequence <= limit {
            if let Some(event) = self.events.pop_front() {
                kind = Some(event.kind);
            }
            proof {
                assert(self@.events =~= old(self)@.events.skip(1));
            }
        }
        match kind {
            None => None,
            Some(kind) => {
                if !marked && matches!(kind, MonitorEventKind::Removed { .. }) {
                    self.active = false;
                    let _ = latches.fire(self.finished);
                }
                Some(
                    MonitorDelivery {
                        event: MonitorEvent {
                            member_id: self.member_id.clone(),
                            member_kind: self.member_kind,
                            membership: self.membership,
                            kind,
                        },
                        wrap: self.wrap.clone(),
                    },
                )
            },
        }
    }

    /// Publishes one of the target's transitions. The sequence number is given
    /// out either way; a full queue drops its oldest entry into the marker.
    pub fn publish(&mut self, kind: MonitorEventKind, source: &mut MonitorSource)
        requires
            old(self)@.wf(),
            old(self)@.queued_by(old(source).last_sequence),
        ensures
            final(self)@.wf(),
            final(self)@.queued_by(final(source).last_sequence),
            final(self)@ == old(self)@.published(old(source).following(), kind),
            final(self).same_watch(*old(self)),
            final(self).wrap == old(self).wrap,
            *final(source) == (MonitorSource {
                last_sequence: old(source).following(),
                pulsed: old(source).pulsed || old(self)@.admits(kind),
            }),
    {
        let terminal = matches!(kind, MonitorEventKind::Removed { .. });
        let sequence: u64 = source.next_sequence();
        if !self.active || self.terminal {
            return;
        }
        match kind {
            MonitorEventKind::Started { incarnation } => {
                if let Some(last) = self.last_started {
                    if last == incarnation {
                        return;
                    }
                }
                self.last_started = Some(incarnation);
            },
            MonitorEventKind::Exited { incarnation, .. } => {
                if let Some(last) = self.last_exited {
                    if last == incarnation {
                        return;
                    }
                }
                self.last_exited = Some(incarnation);
            },
            _ => {},
        }
        let ghost queued = self.events@;
        if self.events.len() == MONITOR_EVENT_CAPACITY {
            if let Some(dropped) = self.events.pop_front() {
                self.lagged = match self.lagged {
                    Some(marker) => Some(
                        LagMarker {
                            sequence: marker.sequence,
                            dropped: marker.dropped.saturating_add(1),
                        },
                    ),
                    None => Some(LagMarker { sequence: dropped.sequence, dropped: 1 }),
                };
            }
            proof {
                assert(self.events@ =~= queued.skip(1));
            }
        }
        self.events.push_back(SequencedMonitorEvent { sequence, kind });
        self.terminal = terminal;
        source.pulse();
    }
}

/// A watch never holds more than its bound, and what it cannot hold it counts:
/// every admitted transition is queued or counted as dropped.
pub proof fn law_a_watch_counts_what_it_drops(sink: SinkModel, sequence: u64, kind: MonitorEventKind)
    requires
        sink.wf(),
        dropped_in(sink.lagged) < u64::MAX,
    ensures
        ({
            let after = sink.published(sequence, kind);
            &&& after.events.len() <= MONITOR_EVENT_CAPACITY
            &&& after.events.len() + dropped_in(after.lagged) == sink.events.len() + dropped_in(
                sink.lagged,
            ) + if sink.admits(kind) {
                1int
            } else {
                0int
            }
        }),
{
}

/// A loss is told before anything that came after it.
pub proof fn law_a_loss_is_told_first(sink: SinkModel, limit: u64)
    requires
        sink.wf(),
        sink.lagged is Some,
        sink.next(limit) is Some,
    ensures
        sink.next(limit) == Some(Popped::Marker(sink.lagged->Some_0)),
        sink.after_next(limit).events == sink.events,
        sink.after_next(limit).lagged is None,
{
}

/// The target's end is the last delivery of a watch, and after it nothing is
/// queued or delivered.
pub proof fn law_the_end_is_delivered_last(
    sink: SinkModel,
    limit: u64,
    later: u64,
    sequence: u64,
    kind: MonitorEventKind,
)
    requires
        sink.next(limit) matches Some(Popped::Event(event)) && event.kind is Removed,
    ensures
        sink.after_next(limit).next(later) is None,
        sink.after_next(limit).published(sequence, kind) == sink.after_next(limit),
{
}

/// A start or an exit told twice in a row is queued once, and nothing is queued
/// behind the target's end.
pub proof fn law_repeated_transitions_are_queued_once(
    sink: SinkModel,
    sequence: u64,
    again: u64,
    kind: MonitorEventKind,
)
    requires
        kind is Started || kind is Exited || kind is Removed,
    ensures
        sink.published(sequence, kind).published(again, kind) == sink.published(sequence, kind),
{
}

/// A watch that delivers and whose target has not ended queues every new
/// transition, however many it has queued before: each start of an incarnation
/// other than the one last seen starting, each exit of one other than the one
/// last seen exiting, and the end. The transition then stands last, under its
/// sequence number, and what was queued stays before it in order, but for the
/// oldest of a full queue.
pub proof fn law_a_new_transition_is_queued(
    sink: SinkModel,
    sequence: u64,
    kind: MonitorEventKind,
)
    requires
        sink.wf(),
        sink.active,
        !sink.terminal,
        match kind {
            MonitorEventKind::Started { incarnation } => sink.last_started != Some(incarnation),
            MonitorEventKind::Exited { incarnation, .. } => sink.last_exited != Some(incarnation),
            _ => true,
        },
    ensures
        sink.admits(kind),
        ({
            let after = sink.published(sequence, kind);
            &&& after.events.len() > 0
            &&& after.events.last() == (SequencedMonitorEvent { sequence, kind })
            &&& sink.events.len() < 128 ==> after.events.drop_last() == sink.events
                && after.lagged == sink.lagged
            &&& sink.events.len() == 128 ==> {
                &&& after.events.drop_last() == sink.events.skip(1)
                &&& after.lagged matches Some(marker)
                &&& sink.lagged is None ==> marker.dropped == 1 && marker.sequence
                    == sink.events[0].sequence
                &&& sink.lagged matches Some(before) ==> {
                    &&& marker.sequence == before.sequence
                    &&& before.dropped < u64::MAX ==> marker.dropped == before.dropped + 1
                    &&& before.dropped == u64::MAX ==> marker.dropped == u64::MAX
                }
            }
            &&& after.active
            &&& after.terminal == (kind is Removed)
            &&& kind matches MonitorEventKind::Started { incarnation } ==> after.last_started
                == Some(incarnation) && after.last_exited == sink.last_exited
            &&& kind matches MonitorEventKind::Exited { incarnation, .. } ==> after.last_exited
                == Some(incarnation) && after.last_started == sink.last_started
            &&& kind is Removed ==> after.last_started == sink.last_started && after.last_exited
                == sink.last_exited
        }),
{
    let after = sink.published(sequence, kind);
    if sink.events.len() < 128 {
        assert(after.events.drop_last() =~= sink.events);
    } else {
        assert(after.events.drop_last() =~= sink.events.skip(1));
    }
}

/// A watch that is over, or whose target has ended, queues nothing more, and
/// neither does one that was told the same start or exit last.
pub proof fn law_nothing_old_is_queued(sink: SinkModel, sequence: u64, kind: MonitorEventKind)
    requires
        !sink.active || sink.terminal || match kind {
            MonitorEventKind::Started { incarnation } => sink.last_started == Some(incarnation),
            MonitorEventKind::Exited { incarnation, .. } => sink.last_exited == Some(incarnation),
            _ => false,
        },
    ensures
        !sink.admits(kind),
        sink.published(sequence, kind) == sink,
{
}

/// Every restart is told: a start and an exit of one incarnation, then a start
/// and an exit of another, are all queued, in that order.
pub proof fn law_every_restart_is_told(
    sink: SinkModel,
    first: Incarnation,
    second: Incarnation,
    first_exit: Exit,
    second_exit: Exit,
    sequence: u64,
)
    requires
        sink.wf(),
        sink.active,
        !sink.terminal,
        sink.events.len() <= 124,
        sequence < u64::MAX - 4,
        first != second,
        sink.last_started != Some(first),
        sink.last_exited != Some(first),
        sink.queued_by(sequence),
    ensures
        ({
            let after = sink.published(
                (sequence + 1) as u64,
                MonitorEventKind::Started { incarnation: first },
            ).published(
                (sequence + 2) as u64,
                MonitorEventKind::Exited { incarnation: first, exit: first_exit },
            ).published(
                (sequence + 3) as u64,
                MonitorEventKind::Started { incarnation: second },
            ).published(
                (sequence + 4) as u64,
                MonitorEventKind::Exited { incarnation: second, exit: second_exit },
            );
            let told = sink.events.len() as int;
            &&& after.events.len() == told + 4
            &&& after.events.take(told) == sink.events
            &&& after.events[told].kind == (MonitorEventKind::Started { incarnation: first })
            &&& after.events[told + 1].kind == (MonitorEventKind::Exited {
                incarnation: first,
                exit: first_exit,
            })
            &&& after.events[told + 2].kind == (MonitorEventKind::Started { incarnation: second })
            &&& after.events[told + 3].kind == (MonitorEventKind::Exited {
                incarnation: second,
                exit: second_exit,
            })
            &&& after.lagged == sink.lagged
        }),
{
    let after = sink.published(
        (sequence + 1) as u64,
        MonitorEventKind::Started { incarnation: first },
    ).published(
        (sequence + 2) as u64,
        MonitorEventKind::Exited { incarnation: first, exit: first_exit },
    ).published(
        (sequence + 3) as u64,
        MonitorEventKind::Started { incarnation: second },
    ).published(
        (sequence + 4) as u64,
        MonitorEventKind::Exited { incarnation: second, exit: second_exit },
    );
    assert(after.events.take(sink.events.len() as int) =~= sink.events);
}

/// An active watch delivers the marker of a loss up to the limit first, and
/// else its oldest transition up to the limit, taking out exactly what it
/// delivers. It delivers nothing only where neither is there, and the end of
/// the target is what ends it.
pub proof fn law_a_watch_delivers_its_oldest_news(sink: SinkModel, limit: u64)
    requires
        sink.wf(),
    ensures
        !sink.active ==> sink.next(limit) is None && sink.after_next(limit) == sink,
        sink.active ==> {
            let told = sink.lagged is Some && sink.lagged->Some_0.sequence <= limit;
            let queued = sink.events.len() > 0 && sink.events[0].sequence <= limit;
            &&& told ==> {
                &&& sink.next(limit) matches Some(delivered)
                &&& delivered.kind() == (MonitorEventKind::Lagged {
                    dropped: sink.lagged->Some_0.dropped,
                })
                &&& sink.after_next(limit) == (SinkModel { lagged: None, ..sink })
            }
            &&& !told && queued ==> {
                &&& sink.next(limit) matches Some(delivered)
                &&& delivered.kind() == sink.events[0].kind
                &&& sink.after_next(limit) == (SinkModel {
                    events: sink.events.skip(1),
                    active: !(sink.events[0].kind is Removed),
                    ..sink
                })
            }
            &&& !told && !queued ==> sink.next(limit) is None && sink.after_next(limit) == sink
        },
{
}

/// Replacing what makes messages forgets what is queued and what was dropped,
/// and nothing else: an old transition is not told again.
pub proof fn law_a_replaced_watch_forgets_its_queue(sink: SinkModel)
    ensures
        sink.emptied().events.len() == 0,
        sink.emptied().lagged is None,
        sink.emptied().active == sink.active,
        sink.emptied().terminal == sink.terminal,
        sink.emptied().last_started == sink.last_started,
        sink.emptied().last_exited == sink.last_exited,
{
}

/// Sequence numbers go up by one with every transition published, and stay at
/// the numeric limit.
pub proof fn law_sequence_numbers_go_up_by_one(source: MonitorSource)
    ensures
        source.last_sequence < u64::MAX ==> source.following() == source.last_sequence + 1,
        source.last_sequence == u64::MAX ==> source.following() == u64::MAX,
{
}

/// Publishing to a watch that delivers, whose target has not ended, puts every
/// new transition last in its queue, under the next sequence number, and tells
/// the watching actor.
pub proof fn law_publishing_queues_a_new_transition<W>(
    sink: &mut MonitorSink<W>,
    source: &mut MonitorSource,
    kind: MonitorEventKind,
)
    requires
        old(sink)@.wf(),
        old(sink).active,
        !old(sink).terminal,
        match kind {
            MonitorEventKind::Started { incarnation } => old(sink).last_started != Some(
                incarnation,
            ),
            MonitorEventKind::Exited { incarnation, .. } => old(sink).last_exited != Some(
                incarnation,
            ),
            _ => true,
        },
        call_ensures(MonitorSink::<W>::publish, (sink, kind, source), ()),
    ensures
        final(sink).events@.len() > 0,
        final(sink).events@.last().kind == kind,
        final(sink).events@.last().sequence == final(source).last_sequence,
        old(source).last_sequence < u64::MAX ==> final(source).last_sequence
            == old(source).last_sequence + 1,
        old(sink).events@.len() < 128 ==> final(sink).events@.drop_last() == old(sink).events@,
        final(source).pulsed,
{
    law_a_new_transition_is_queued(old(sink)@, old(source).following(), kind);
}

} // verus!
