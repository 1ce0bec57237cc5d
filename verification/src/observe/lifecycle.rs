//! Lifecycle streams: a bounded log each subscriber reads at its own pace.

use crate::observe::{EventModel, LifecycleEvent, LifecycleItem};
use crate::poll::Poll;
use std::collections::VecDeque;
use vstd::prelude::*;

verus! {

/// Number of lifecycle events retained for each subscriber.
pub const LIFECYCLE_EVENT_CAPACITY: usize = 128;

/// Error from a non-blocking lifecycle receive.
#[derive(Clone, Copy, Debug, PartialEq, Eq, Structural)]
#[non_exhaustive]
pub enum LifecycleTryRecvError {
    /// No item is ready yet.
    Empty,
    /// The scope membership is terminal and the queue is drained.
    Closed,
}

impl LifecycleTryRecvError {
    /// The diagnostic.
    pub fn message(self) -> (text: &'static str)
        ensures
            text@ == match self {
                LifecycleTryRecvError::Empty => "lifecycle subscription is empty"@,
                LifecycleTryRecvError::Closed => "lifecycle subscription is closed"@,
            },
    {
        match self {
            LifecycleTryRecvError::Empty => "lifecycle subscription is empty",
            LifecycleTryRecvError::Closed => "lifecycle subscription is closed",
        }
    }
}

/// Wakes owed to observers once the emitting scope's locks are released.
#[derive(Clone, Copy, Debug, PartialEq, Eq, Structural)]
pub struct ObservationWakes {
    /// Whether lifecycle subscribers are to be woken.
    pub lifecycle: bool,
    /// Whether snapshot receivers are to be woken.
    pub snapshots: bool,
}

impl ObservationWakes {
    /// Nothing owed.
    pub fn new() -> (wakes: ObservationWakes)
        ensures
            wakes == (ObservationWakes { lifecycle: false, snapshots: false }),
    {
        ObservationWakes { lifecycle: false, snapshots: false }
    }
}

/// Everything a hub holds.
#[verifier::ext_equal]
pub struct HubModel {
    /// The retained events, oldest first.
    pub retained: Seq<EventModel>,
    /// How many events were ever published.
    pub published: nat,
    /// Events reported as lost before they reached the hub.
    pub explicit_lag: u64,
    /// Whether the membership is terminal.
    pub closed: bool,
}

/// One scope membership's lifecycle log.
#[derive(Debug)]
pub struct LifecycleHub {
    /// The retained events, oldest first.
    pub ring: VecDeque<LifecycleEvent>,
    /// How many events were ever published.
    pub tail: u64,
    /// Events reported as lost before they reached the hub.
    pub explicit_lag: u64,
    /// Whether the membership is terminal.
    pub closed: bool,
}

/// One membership-owned lifecycle subscription.
#[derive(Clone, Copy, Debug, PartialEq, Eq, Structural)]
pub struct LifecycleEvents {
    /// The position of the next event to read.
    pub next: u64,
    /// How much of the hub's reported loss was told.
    pub seen_explicit_lag: u64,
}

/// What a read finds.
pub enum Reading {
    /// An event.
    Event(EventModel),
    /// Events were lost.
    Lagged(u64),
    /// Nothing yet.
    Empty,
    /// Nothing any more.
    Closed,
}

impl HubModel {
    /// What holds of every hub.
    pub open spec fn wf(self) -> bool {
        &&& self.retained.len() <= LIFECYCLE_EVENT_CAPACITY
        &&& self.retained.len() <= self.published
        &&& self.retained.len() < LIFECYCLE_EVENT_CAPACITY ==> self.retained.len()
            == self.published
    }

    /// The position of the oldest retained event.
    pub open spec fn oldest(self) -> int {
        self.published - self.retained.len()
    }

    /// The hub with one more event; the oldest makes room where it must.
    pub open spec fn appended(self, event: EventModel) -> HubModel {
        if self.closed {
            self
        } else {
            HubModel {
                retained: if self.retained.len() == LIFECYCLE_EVENT_CAPACITY {
                    self.retained.skip(1).push(event)
                } else {
                    self.retained.push(event)
                },
                published: self.published + 1,
                ..self
            }
        }
    }

    /// The hub with `dropped` more events reported as lost.
    pub open spec fn lagged(self, dropped: u64) -> HubModel {
        if self.closed {
            self
        } else {
            HubModel {
                explicit_lag: if self.explicit_lag + dropped <= u64::MAX {
                    (self.explicit_lag + dropped) as u64
                } else {
                    u64::MAX
                },
                ..self
            }
        }
    }
}

impl LifecycleEvents {
    /// Whether the subscription is one of `hub`'s.
    pub open spec fn reads(self, hub: HubModel) -> bool {
        &&& self.next <= hub.published
        &&& self.seen_explicit_lag <= hub.explicit_lag
    }

    /// How many events this subscription has lost from the log.
    pub open spec fn overrun(self, hub: HubModel) -> int {
        if self.next < hub.oldest() {
            hub.oldest() - self.next
        } else {
            0
        }
    }

    /// What the next read finds. A reported loss leads; events lost from the
    /// log are told with it.
    pub open spec fn reading(self, hub: HubModel) -> Reading {
        if self.seen_explicit_lag != hub.explicit_lag {
            let told = hub.explicit_lag - self.seen_explicit_lag + self.overrun(hub);
            Reading::Lagged(
                if told <= u64::MAX {
                    told as u64
                } else {
                    u64::MAX
                },
            )
        } else if self.overrun(hub) > 0 {
            Reading::Lagged(self.overrun(hub) as u64)
        } else if self.next < hub.published {
            Reading::Event(hub.retained[self.next - hub.oldest()])
        } else if hub.closed {
            Reading::Closed
        } else {
            Reading::Empty
        }
    }

    /// The subscription after that read.
    pub open spec fn after_reading(self, hub: HubModel) -> LifecycleEvents {
        match self.reading(hub) {
            Reading::Lagged(_) => LifecycleEvents {
                next: (self.next + self.overrun(hub)) as u64,
                seen_explicit_lag: hub.explicit_lag,
            },
            Reading::Event(_) => LifecycleEvents { next: (self.next + 1) as u64, ..self },
            _ => self,
        }
    }
}

impl LifecycleHub {
    /// Everything the hub holds.
    pub open spec fn view(&self) -> HubModel {
        HubModel {
            retained: self.ring@.map_values(|event: LifecycleEvent| event@),
            published: self.tail as nat,
            explicit_lag: self.explicit_lag,
            closed: self.closed,
        }
    }

    /// A hub that has published nothing.
    pub fn new() -> (hub: LifecycleHub)
        ensures
            hub@.wf(),
            hub@ == (HubModel {
                retained: seq![],
                published: 0,
                explicit_lag: 0,
                closed: false,
            }),
    {
        let hub = LifecycleHub {
            ring: VecDeque::new(),
            tail: 0,
            explicit_lag: 0,
            closed: false,
        };
        proof {
            assert(hub@.retained =~= seq![]);
        }
        hub
    }

    /// A subscription to what is published from now on.
    pub fn subscribe(&self) -> (events: LifecycleEvents)
        ensures
            events.next == self@.published,
            events.seen_explicit_lag == self@.explicit_lag,
            events.reads(self@),
    {
        LifecycleEvents { next: self.tail, seen_explicit_lag: self.explicit_lag }
    }

    /// Appends an event unless the hub is closed: whoever saw it open and then
    /// lost to closing appends nothing. Reports whether subscribers are to be
    /// woken.
    pub fn publish_past_fast_path(&mut self, event: LifecycleEvent) -> (published: bool)
        requires
            old(self)@.wf(),
            old(self)@.published < u64::MAX,
        ensures
            final(self)@.wf(),
            final(self)@ == old(self)@.appended(event@),
            published == !old(self)@.closed,
    {
        if self.closed {
            return false;
        }
        let ghost before = self.ring@;
        if self.ring.len() == LIFECYCLE_EVENT_CAPACITY {
            let _ = self.ring.pop_front();
            proof {
                assert(self.ring@ =~= before.skip(1));
            }
        }
        self.ring.push_back(event);
        self.tail = self.tail + 1;
        proof {
            assert(self@.retained =~= old(self)@.appended(event@).retained);
        }
        true
    }

    /// Publishes an event, unless the hub is closed. Reports whether
    /// subscribers are to be woken.
    pub fn publish(&mut self, event: LifecycleEvent) -> (published: bool)
        requires
            old(self)@.wf(),
            old(self)@.published < u64::MAX,
        ensures
            final(self)@.wf(),
            final(self)@ == old(self)@.appended(event@),
            published == !old(self)@.closed,
    {
        if self.closed {
            return false;
        }
        self.publish_past_fast_path(event)
    }

    /// Publishes an event and leaves the wake to be run later.
    pub fn publish_deferred(&mut self, wakes: &mut ObservationWakes, event: LifecycleEvent)
        requires
            old(self)@.wf(),
            old(self)@.published < u64::MAX,
        ensures
            final(self)@.wf(),
            final(self)@ == old(self)@.appended(event@),
            *final(wakes) == (ObservationWakes {
                lifecycle: old(wakes).lifecycle || !old(self)@.closed,
                ..*old(wakes)
            }),
    {
        if self.publish(event) {
            wakes.lifecycle = true;
        }
    }

    /// Reports events as lost before they reached the hub, unless it is closed.
    /// Reports whether subscribers are to be woken.
    pub fn publish_lagged(&mut self, dropped: u64) -> (published: bool)
        requires
            old(self)@.wf(),
        ensures
            final(self)@.wf(),
            final(self)@ == old(self)@.lagged(dropped),
            published == !old(self)@.closed,
    {
        if self.closed {
            return false;
        }
        self.explicit_lag = self.explicit_lag.saturating_add(dropped);
        true
    }

    /// Reports a loss and leaves the wake to be run later.
    pub fn publish_lagged_deferred(&mut self, wakes: &mut ObservationWakes, dropped: u64)
        requires
            old(self)@.wf(),
        ensures
            final(self)@.wf(),
            final(self)@ == old(self)@.lagged(dropped),
            *final(wakes) == (ObservationWakes {
                lifecycle: old(wakes).lifecycle || !old(self)@.closed,
                ..*old(wakes)
            }),
    {
        if self.publish_lagged(dropped) {
            wakes.lifecycle = true;
        }
    }

    /// Closes the hub; reports whether this was the first time, and so whether
    /// subscribers are to be woken.
    pub fn close(&mut self) -> (first: bool)
        requires
            old(self)@.wf(),
        ensures
            final(self)@.wf(),
            final(self)@ == (HubModel { closed: true, ..old(self)@ }),
            first == !old(self)@.closed,
    {
        let first = !self.closed;
        self.closed = true;
        first
    }

    /// Closes the hub and leaves the wake to be run later.
    pub fn close_deferred(&mut self, wakes: &mut ObservationWakes)
        requires
            old(self)@.wf(),
        ensures
            final(self)@.wf(),
            final(self)@ == (HubModel { closed: true, ..old(self)@ }),
            *final(wakes) == (ObservationWakes {
                lifecycle: old(wakes).lifecycle || !old(self)@.closed,
                ..*old(wakes)
            }),
    {
        if self.close() {
            wakes.lifecycle = true;
        }
    }
}

impl LifecycleEvents {
    /// Attempts to receive without waiting. A marker leads the overflow it
    /// tells of: the events after it stay in the bounded log, where a later
    /// overflow can still reach them.
    pub fn try_recv(&mut self, hub: &LifecycleHub) -> (item: Result<
        LifecycleItem,
        LifecycleTryRecvError,
    >)
        requires
            hub@.wf(),
            old(self).reads(hub@),
        ensures
            final(self).reads(hub@),
            *final(self) == old(self).after_reading(hub@),
            match old(self).reading(hub@) {
                Reading::Event(event) => item matches Ok(LifecycleItem::Event(found)) && found@
                    == event,
                Reading::Lagged(dropped) => item == Ok::<LifecycleItem, LifecycleTryRecvError>(
                    LifecycleItem::Lagged { dropped },
                ),
                Reading::Empty => item == Err::<LifecycleItem, LifecycleTryRecvError>(
                    LifecycleTryRecvError::Empty,
                ),
                Reading::Closed => item == Err::<LifecycleItem, LifecycleTryRecvError>(
                    LifecycleTryRecvError::Closed,
                ),
            },
    {
        let oldest: u64 = hub.tail - hub.ring.len() as u64;
        let overrun: u64 = if self.next < oldest {
            oldest - self.next
        } else {
            0
        };
        if hub.explicit_lag != self.seen_explicit_lag {
            let reported: u64 = hub.explicit_lag - self.seen_explicit_lag;
            self.seen_explicit_lag = hub.explicit_lag;
            self.next = self.next + overrun;
            return Ok(LifecycleItem::Lagged { dropped: reported.saturating_add(overrun) });
        }
        if overrun > 0 {
            self.next = oldest;
            return Ok(LifecycleItem::Lagged { dropped: overrun });
        }
        if self.next < hub.tail {
            let place: usize = (self.next - oldest) as usize;
            let event = hub.ring[place].clone();
            self.next = self.next + 1;
            return Ok(LifecycleItem::Event(event));
        }
        if hub.closed {
            Err(LifecycleTryRecvError::Closed)
        } else {
            Err(LifecycleTryRecvError::Empty)
        }
    }
}

impl LifecycleEvents {
    /// Receives the next event or marker: pending while there is none yet, and
    /// `None` once there will be none.
    pub fn recv(&mut self, hub: &LifecycleHub) -> (polled: Poll<Option<LifecycleItem>>)
        requires
            hub@.wf(),
            old(self).reads(hub@),
        ensures
            final(self).reads(hub@),
            *final(self) == old(self).after_reading(hub@),
            match old(self).reading(hub@) {
                Reading::Event(event) => polled matches Poll::Ready(
                    Some(LifecycleItem::Event(found)),
                ) && found@ == event,
                Reading::Lagged(dropped) => polled == Poll::Ready(
                    Some(LifecycleItem::Lagged { dropped }),
                ),
                Reading::Empty => polled == Poll::<Option<LifecycleItem>>::Pending,
                Reading::Closed => polled == Poll::Ready(None::<LifecycleItem>),
            },
    {
        match self.try_recv(hub) {
            Ok(item) => Poll::Ready(Some(item)),
            Err(LifecycleTryRecvError::Closed) => Poll::Ready(None),
            Err(LifecycleTryRecvError::Empty) => Poll::Pending,
        }
    }
}

/// A subscription misses nothing silently: each read moves it past exactly the
/// events it hands out or counts as lost, in order.
pub proof fn law_a_subscription_misses_nothing_silently(events: LifecycleEvents, hub: HubModel)
    requires
        hub.wf(),
        events.reads(hub),
        hub.published <= u64::MAX,
    ensures
        ({
            let after = events.after_reading(hub);
            &&& after.reads(hub)
            &&& events.reading(hub) matches Reading::Lagged(dropped) ==> (dropped < u64::MAX
                ==> dropped == after.next - events.next + after.seen_explicit_lag
                - events.seen_explicit_lag)
            &&& events.reading(hub) matches Reading::Event(event) ==> {
                &&& after.next == events.next + 1
                &&& event == hub.retained[events.next - hub.oldest()]
            }
            &&& events.reading(hub) is Empty || events.reading(hub) is Closed ==> events.next
                == hub.published
        }),
{
}

/// A closed hub is drained and then reads as closed for good; it takes in
/// nothing more.
pub proof fn law_a_closed_hub_drains_and_stays_closed(
    events: LifecycleEvents,
    hub: HubModel,
    late: EventModel,
    dropped: u64,
)
    requires
        hub.wf(),
        hub.closed,
        events.reads(hub),
        hub.published <= u64::MAX,
    ensures
        hub.appended(late) == hub,
        hub.lagged(dropped) == hub,
        !(events.reading(hub) is Empty),
        events.reading(hub) is Closed <==> events.next == hub.published
            && events.seen_explicit_lag == hub.explicit_lag,
        events.reading(hub) is Closed ==> events.after_reading(hub) == events,
        !(events.reading(hub) is Closed) ==> {
            let after = events.after_reading(hub);
            (hub.published - after.next) + (hub.explicit_lag - after.seen_explicit_lag) < (
            hub.published - events.next) + (hub.explicit_lag - events.seen_explicit_lag)
        },
{
}

/// Subscribers that keep up see every event: within the bound nothing is lost.
pub proof fn law_within_the_bound_nothing_is_lost(
    events: LifecycleEvents,
    hub: HubModel,
)
    requires
        hub.wf(),
        events.reads(hub),
        hub.published - events.next <= LIFECYCLE_EVENT_CAPACITY,
        events.seen_explicit_lag == hub.explicit_lag,
    ensures
        !(events.reading(hub) is Lagged),
{
}

} // verus!
