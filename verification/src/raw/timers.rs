//! Keyed timer storage for one raw incarnation.
//!
//! The store owns every armed timer's key and message and mints the arming
//! orders that index them. A key or message that leaves it unused leaves
//! through the garbage list.

use crate::identity::PoisonedCounter;
use crate::time::{Deadline, Duration, Instant};
use vstd::prelude::*;

verus! {

/// An actor's timer key: the hash of its type and value, and the two
/// themselves. Equal values of different types are different keys.
#[derive(Clone, Copy, Debug, PartialEq, Eq, Structural, Hash)]
pub struct TimerKey {
    /// Hash of the type and the value.
    pub hash: u64,
    /// The key's type.
    pub kind: u64,
    /// The key's value among those of its type.
    pub value: u64,
}

/// What a timer delivers.
#[derive(Debug)]
pub enum TimerMessage<M> {
    /// Delivered once.
    Once(M),
    /// Delivered as a copy at every period.
    Interval(M),
}

impl<M> TimerMessage<M> {
    /// The message itself.
    pub open spec fn message(self) -> M {
        match self {
            TimerMessage::Once(message) => message,
            TimerMessage::Interval(message) => message,
        }
    }

    /// The message itself.
    pub fn into_message(self) -> (message: M)
        ensures
            message == self.message(),
    {
        match self {
            TimerMessage::Once(message) => message,
            TimerMessage::Interval(message) => message,
        }
    }
}

/// A timer's identity, minted by the store that installs it.
#[derive(Clone, Copy, Debug, PartialEq, Eq, PartialOrd, Ord, Structural, Hash)]
pub struct ArmingOrder(pub u64);

/// One installed timer.
#[derive(Debug)]
pub struct TimerEntry<M> {
    /// The actor's key.
    pub key: TimerKey,
    /// When it fires; `None` where the delay overflows the clock, which is
    /// never and not "due now".
    pub deadline: Option<Instant>,
    /// The timer's identity.
    pub arming_order: ArmingOrder,
    /// What it delivers.
    pub message: TimerMessage<M>,
    /// How often it fires again.
    pub period: Option<Duration>,
}

/// Something of the actor's that is destroyed behind a containment boundary.
#[derive(Debug)]
pub enum Garbage<M> {
    /// A timer key.
    Key(TimerKey),
    /// A message.
    Message(M),
}

/// An armed deadline: when it fires and which timer it belongs to.
pub type Armed = (Instant, u64);

/// Whether one armed deadline comes before another: the earlier instant first,
/// and the older arming first among equal ones.
pub open spec fn fires_before(left: Armed, right: Armed) -> bool {
    left.0@ < right.0@ || (left.0@ == right.0@ && left.1 < right.1)
}

/// What a store holds.
#[verifier::ext_equal]
pub struct TimerModel<M> {
    /// The installed timers by arming order.
    pub entries: Map<u64, TimerEntry<M>>,
    /// The deadlines still to fire.
    pub armed: Set<Armed>,
    /// The last arming order minted.
    pub minted: u64,
}

impl<M> TimerModel<M> {
    /// Whether timer `order` is installed under `key`.
    pub open spec fn keyed_as(self, order: u64, key: TimerKey) -> bool {
        self.entries.dom().contains(order) && self.entries[order].key == key
    }

    /// Whether a timer is installed under `key`.
    pub open spec fn has_key(self, key: TimerKey) -> bool {
        exists|order: u64| self.keyed_as(order, key)
    }

    /// The timer installed under `key`.
    pub open spec fn order_of(self, key: TimerKey) -> u64 {
        choose|order: u64| self.keyed_as(order, key)
    }

    /// The store without timer `order`.
    pub open spec fn without(self, order: u64) -> TimerModel<M> {
        TimerModel {
            entries: self.entries.remove(order),
            armed: self.armed.filter(|pair: Armed| pair.1 != order),
            ..self
        }
    }

    /// The store without the timer under `key`, if there is one.
    pub open spec fn cleared(self, key: TimerKey) -> TimerModel<M> {
        if self.has_key(key) {
            self.without(self.order_of(key))
        } else {
            self
        }
    }

    /// The store with `entry` installed.
    pub open spec fn with(self, entry: TimerEntry<M>) -> TimerModel<M> {
        TimerModel {
            entries: self.entries.insert(entry.arming_order.0, entry),
            armed: match entry.deadline {
                Some(deadline) => self.armed.insert((deadline, entry.arming_order.0)),
                None => self.armed,
            },
            minted: entry.arming_order.0,
        }
    }

    /// What holds of every store: each key and each arming order names one
    /// timer, every armed deadline belongs to an installed timer, and exactly
    /// intervals have a period.
    pub open spec fn wf(self) -> bool {
        &&& forall|order: u64|
            #![trigger self.entries[order]]
            self.entries.dom().contains(order) ==> {
                &&& self.entries[order].arming_order.0 == order
                &&& order <= self.minted
                &&& self.entries[order].period is Some
                    <==> self.entries[order].message is Interval
            }
        &&& forall|a: u64, b: u64|
            #![trigger self.entries[a], self.entries[b]]
            self.entries.dom().contains(a) && self.entries.dom().contains(b)
                && self.entries[a].key == self.entries[b].key ==> a == b
        &&& forall|pair: Armed| #[trigger]
            self.armed.contains(pair) ==> self.entries.dom().contains(pair.1)
                && self.entries[pair.1].deadline == Some(pair.0)
    }

    /// What destroying the timer under `key` adds to the garbage: its key, then
    /// its message.
    pub open spec fn garbage_of(self, key: TimerKey) -> Seq<Garbage<M>> {
        if self.has_key(key) {
            let entry = self.entries[self.order_of(key)];
            seq![Garbage::Key(entry.key), Garbage::Message(entry.message.message())]
        } else {
            seq![]
        }
    }
}

/// Keyed timers with an independently ordered deadline index.
///
/// `keyed` is ordered by key hash and then arming order, so a lookup compares
/// exact keys only among those of one hash.
#[derive(Debug)]
pub struct TimerStore<M> {
    /// Mints arming orders.
    pub arming_orders: PoisonedCounter,
    /// The installed timers.
    pub keyed: Vec<TimerEntry<M>>,
    /// For each arming order, the hash its timer is filed under.
    pub armings: Vec<(u64, u64)>,
    /// The deadlines still to fire, soonest first.
    pub deadlines: Vec<Armed>,
    /// How many exact-key comparisons lookups have made.
    pub lookup_probes: u64,
}

/// Whether one entry is filed before another.
pub open spec fn filed_before<M>(left: TimerEntry<M>, right: TimerEntry<M>) -> bool {
    left.key.hash < right.key.hash || (left.key.hash == right.key.hash && left.arming_order.0
        < right.arming_order.0)
}

/// Whether entry `i` is timer `order`.
pub open spec fn is_at<M>(keyed: Seq<TimerEntry<M>>, i: int, order: u64) -> bool {
    0 <= i < keyed.len() && keyed[i].arming_order.0 == order
}

/// Whether timer `order` is filed.
pub open spec fn is_filed<M>(keyed: Seq<TimerEntry<M>>, order: u64) -> bool {
    exists|i: int| is_at(keyed, i, order)
}

/// Where timer `order` is filed.
pub open spec fn place_of<M>(keyed: Seq<TimerEntry<M>>, order: u64) -> int {
    choose|i: int| is_at(keyed, i, order)
}

/// The filed timers by arming order.
pub open spec fn by_order<M>(keyed: Seq<TimerEntry<M>>) -> Map<u64, TimerEntry<M>> {
    Map::new(|order: u64| is_filed(keyed, order), |order: u64| keyed[place_of(keyed, order)])
}

/// Whether the entries are in filing order, with one entry per arming order and
/// per key.
pub open spec fn well_filed<M>(keyed: Seq<TimerEntry<M>>) -> bool {
    &&& forall|i: int, j: int| 0 <= i < j < keyed.len() ==> filed_before(keyed[i], keyed[j])
    &&& forall|i: int, j: int|
        #![trigger keyed[i], keyed[j]]
        0 <= i < keyed.len() && 0 <= j < keyed.len() && keyed[i].arming_order
            == keyed[j].arming_order ==> i == j
    &&& forall|i: int, j: int|
        #![trigger keyed[i], keyed[j]]
        0 <= i < keyed.len() && 0 <= j < keyed.len() && keyed[i].key == keyed[j].key ==> i == j
}

/// Whether the deadlines stand soonest first.
pub open spec fn soonest_first(deadlines: Seq<Armed>) -> bool {
    forall|i: int, j: int|
        0 <= i < j < deadlines.len() ==> fires_before(deadlines[i], deadlines[j])
}

/// Whether `pairs` lists exactly the deadlines of `armed`, soonest first.
pub open spec fn in_firing_order(pairs: Seq<Armed>, armed: Set<Armed>) -> bool {
    soonest_first(pairs) && forall|pair: Armed| #[trigger]
        pairs.contains(pair) <==> armed.contains(pair)
}

/// Whether the arming index is ascending.
pub open spec fn indexed_in_order(armings: Seq<(u64, u64)>) -> bool {
    forall|i: int, j: int| 0 <= i < j < armings.len() ==> armings[i].0 < armings[j].0
}

/// A filed timer's place is the only one.
proof fn lemma_place<M>(keyed: Seq<TimerEntry<M>>, i: int)
    requires
        well_filed(keyed),
        0 <= i < keyed.len(),
    ensures
        is_filed(keyed, keyed[i].arming_order.0),
        place_of(keyed, keyed[i].arming_order.0) == i,
        by_order(keyed).dom().contains(keyed[i].arming_order.0),
        by_order(keyed)[keyed[i].arming_order.0] == keyed[i],
{
    let order = keyed[i].arming_order.0;
    assert(is_at(keyed, i, order));
    let j = place_of(keyed, order);
    assert(is_at(keyed, j, order));
    assert(keyed[i].arming_order == keyed[j].arming_order);
}

/// Taking an entry out takes its timer out.
proof fn lemma_unfile<M>(keyed: Seq<TimerEntry<M>>, i: int)
    requires
        well_filed(keyed),
        0 <= i < keyed.len(),
    ensures
        well_filed(keyed.remove(i)),
        by_order(keyed.remove(i)) == by_order(keyed).remove(keyed[i].arming_order.0),
{
    let after = keyed.remove(i);
    let gone = keyed[i].arming_order.0;
    assert forall|a: int, b: int|
        #![trigger after[a], after[b]]
        0 <= a < after.len() && 0 <= b < after.len() implies {
        &&& a < b ==> filed_before(after[a], after[b])
        &&& after[a].arming_order == after[b].arming_order ==> a == b
        &&& after[a].key == after[b].key ==> a == b
    } by {
        let x = if a < i { a } else { a + 1 };
        let y = if b < i { b } else { b + 1 };
        assert(after[a] == keyed[x]);
        assert(after[b] == keyed[y]);
    }
    assert forall|order: u64| #[trigger]
        by_order(after).dom().contains(order) == by_order(keyed).remove(gone).dom().contains(
            order,
        ) by {
        if is_filed(after, order) {
            let a = place_of(after, order);
            assert(is_at(after, a, order));
            let x = if a < i { a } else { a + 1 };
            assert(after[a] == keyed[x]);
            assert(is_at(keyed, x, order));
        }
        if is_filed(keyed, order) && order != gone {
            let x = place_of(keyed, order);
            assert(is_at(keyed, x, order));
            let a = if x < i { x } else { x - 1 };
            assert(after[a] == keyed[x]);
            assert(is_at(after, a, order));
        }
    }
    assert forall|order: u64| by_order(after).dom().contains(order) implies
        #[trigger] by_order(after)[order] == by_order(keyed).remove(gone)[order] by {
        let a = place_of(after, order);
        assert(is_at(after, a, order));
        let x = if a < i { a } else { a + 1 };
        assert(after[a] == keyed[x]);
        lemma_place(keyed, x);
    }
    assert(by_order(after) =~= by_order(keyed).remove(gone));
}

/// Filing an entry at its place installs its timer.
proof fn lemma_file<M>(keyed: Seq<TimerEntry<M>>, i: int, entry: TimerEntry<M>)
    requires
        well_filed(keyed),
        0 <= i <= keyed.len(),
        forall|a: int| 0 <= a < i ==> filed_before(#[trigger] keyed[a], entry),
        forall|a: int| i <= a < keyed.len() ==> filed_before(entry, #[trigger] keyed[a]),
        forall|a: int|
            0 <= a < keyed.len() ==> (#[trigger] keyed[a]).arming_order != entry.arming_order
                && keyed[a].key != entry.key,
    ensures
        well_filed(keyed.insert(i, entry)),
        by_order(keyed.insert(i, entry)) == by_order(keyed).insert(entry.arming_order.0, entry),
{
    let after = keyed.insert(i, entry);
    let order = entry.arming_order.0;
    assert forall|a: int, b: int|
        #![trigger after[a], after[b]]
        0 <= a < after.len() && 0 <= b < after.len() implies {
        &&& a < b ==> filed_before(after[a], after[b])
        &&& after[a].arming_order == after[b].arming_order ==> a == b
        &&& after[a].key == after[b].key ==> a == b
    } by {
        let x = if a < i { a } else { a - 1 };
        let y = if b < i { b } else { b - 1 };
        if a != i {
            assert(after[a] == keyed[x]);
        }
        if b != i {
            assert(after[b] == keyed[y]);
        }
    }
    assert forall|o: u64| #[trigger]
        by_order(after).dom().contains(o) == by_order(keyed).insert(order, entry).dom().contains(
            o,
        ) by {
        if is_filed(after, o) {
            let a = place_of(after, o);
            assert(is_at(after, a, o));
            if a != i {
                let x = if a < i { a } else { a - 1 };
                assert(after[a] == keyed[x]);
                assert(is_at(keyed, x, o));
            }
        }
        if is_filed(keyed, o) {
            let x = place_of(keyed, o);
            assert(is_at(keyed, x, o));
            let a = if x < i { x } else { x + 1 };
            assert(after[a] == keyed[x]);
            assert(is_at(after, a, o));
        }
        if o == order {
            assert(is_at(after, i, o));
        }
    }
    assert forall|o: u64| by_order(after).dom().contains(o) implies #[trigger] by_order(
        after,
    )[o] == by_order(keyed).insert(order, entry)[o] by {
        let a = place_of(after, o);
        assert(is_at(after, a, o));
        if a != i {
            let x = if a < i { a } else { a - 1 };
            assert(after[a] == keyed[x]);
            lemma_place(keyed, x);
        }
    }
    assert(by_order(after) =~= by_order(keyed).insert(order, entry));
}

/// Whether no other key shares `key`'s hash.
pub open spec fn alone_in_its_hash<M>(keyed: Seq<TimerEntry<M>>, key: TimerKey) -> bool {
    forall|i: int|
        0 <= i < keyed.len() && (#[trigger] keyed[i]).key.hash == key.hash ==> keyed[i].key == key
}

/// One more, unless the range is spent.
pub open spec fn saturating_next(value: u64) -> u64 {
    if value < u64::MAX {
        (value + 1) as u64
    } else {
        value
    }
}

/// Whether the arming index has `order` at `i`.
pub open spec fn indexes(armings: Seq<(u64, u64)>, i: int, order: u64) -> bool {
    0 <= i < armings.len() && armings[i].0 == order
}

/// Whether the arming index has `order`.
pub open spec fn is_indexed(armings: Seq<(u64, u64)>, order: u64) -> bool {
    exists|i: int| indexes(armings, i, order)
}

impl<M> TimerStore<M> {
    /// What the store holds.
    pub open spec fn view(&self) -> TimerModel<M> {
        TimerModel {
            entries: by_order(self.keyed@),
            armed: Set::new(|pair: Armed| self.deadlines@.contains(pair)),
            minted: self.arming_orders@,
        }
    }

    /// Whether the indexes agree on which timers there are.
    pub open spec fn linked(&self) -> bool {
        &&& self@.wf()
        &&& well_filed(self.keyed@)
        &&& soonest_first(self.deadlines@)
        &&& indexed_in_order(self.armings@)
        &&& forall|order: u64| #[trigger]
            is_filed(self.keyed@, order) <==> is_indexed(self.armings@, order)
    }

    /// Whether, besides, the arming index knows where each timer is filed.
    pub open spec fn wf(&self) -> bool {
        &&& self.linked()
        &&& forall|i: int|
            0 <= i < self.armings@.len() ==> (#[trigger] self.armings@[i]).1 == self.keyed@[place_of(
                self.keyed@,
                self.armings@[i].0,
            )].key.hash
    }

    /// A store without timers.
    pub fn new() -> (store: TimerStore<M>)
        ensures
            store.wf(),
            store@.entries == Map::<u64, TimerEntry<M>>::empty(),
            store@.armed == Set::<Armed>::empty(),
            store@.minted == 0,
            store.lookup_probes == 0,
    {
        let store = TimerStore {
            arming_orders: PoisonedCounter::new(),
            keyed: Vec::new(),
            armings: Vec::new(),
            deadlines: Vec::new(),
            lookup_probes: 0,
        };
        proof {
            assert(by_order(store.keyed@) =~= Map::<u64, TimerEntry<M>>::empty());
            assert(store@.armed =~= Set::<Armed>::empty());
            assert forall|order: u64| #[trigger] is_filed(store.keyed@, order) == is_indexed(
                store.armings@,
                order,
            ) by {}
        }
        store
    }

    /// Whether an arming order is left.
    pub fn can_arm(&self) -> (armable: bool)
        ensures
            armable == (self@.minted < u64::MAX),
    {
        self.arming_orders.load() < u64::MAX
    }

    /// Whether no timer is installed.
    pub fn is_empty(&self) -> (empty: bool)
        requires
            self.linked(),
        ensures
            empty == (self@.entries.dom() =~= Set::<u64>::empty()),
    {
        proof {
            if self.armings@.len() > 0 {
                let order = self.armings@[0].0;
                assert(indexes(self.armings@, 0, order));
                assert(is_filed(self.keyed@, order));
                assert(self@.entries.dom().contains(order));
            } else {
                assert forall|order: u64| !self@.entries.dom().contains(order) by {
                    if is_filed(self.keyed@, order) {
                        assert(is_indexed(self.armings@, order));
                        let i = choose|i: int| indexes(self.armings@, i, order);
                        assert(indexes(self.armings@, i, order));
                    }
                }
            }
        }
        self.armings.len() == 0
    }

    /// The first place whose entry is not filed before `(hash, order)`.
    fn filing_place(&self, hash: u64, order: u64) -> (place: usize)
        requires
            well_filed(self.keyed@),
        ensures
            place <= self.keyed@.len(),
            forall|i: int|
                0 <= i < place ==> (#[trigger] self.keyed@[i]).key.hash < hash || (
                self.keyed@[i].key.hash == hash && self.keyed@[i].arming_order.0 < order),
            forall|i: int|
                place <= i < self.keyed@.len() ==> !((#[trigger] self.keyed@[i]).key.hash < hash
                    || (self.keyed@[i].key.hash == hash && self.keyed@[i].arming_order.0 < order)),
    {
        let mut low: usize = 0;
        let mut high: usize = self.keyed.len();
        while low < high
            invariant
                low <= high <= self.keyed@.len(),
                well_filed(self.keyed@),
                forall|i: int|
                    0 <= i < low ==> (#[trigger] self.keyed@[i]).key.hash < hash || (
                    self.keyed@[i].key.hash == hash && self.keyed@[i].arming_order.0 < order),
                forall|i: int|
                    high <= i < self.keyed@.len() ==> !((#[trigger] self.keyed@[i]).key.hash < hash
                        || (self.keyed@[i].key.hash == hash && self.keyed@[i].arming_order.0
                        < order)),
            decreases high - low,
        {
            let middle: usize = low + (high - low) / 2;
            let entry = &self.keyed[middle];
            if entry.key.hash < hash || (entry.key.hash == hash && entry.arming_order.0 < order) {
                proof {
                    assert forall|i: int| 0 <= i < middle + 1 implies (
                    #[trigger] self.keyed@[i]).key.hash < hash || (self.keyed@[i].key.hash == hash
                        && self.keyed@[i].arming_order.0 < order) by {
                        if i < middle {
                            assert(filed_before(self.keyed@[i], self.keyed@[middle as int]));
                        }
                    }
                }
                low = middle + 1;
            } else {
                proof {
                    assert forall|i: int| middle <= i < self.keyed@.len() implies !((
                    #[trigger] self.keyed@[i]).key.hash < hash || (self.keyed@[i].key.hash == hash
                        && self.keyed@[i].arming_order.0 < order)) by {
                        if middle < i {
                            assert(filed_before(self.keyed@[middle as int], self.keyed@[i]));
                        }
                    }
                }
                high = middle;
            }
        }
        low
    }

    /// Where the timer under `key` is filed. Exact keys are compared only among
    /// those of one hash; the comparisons made are counted.
    fn locate(&mut self, key: &TimerKey) -> (place: Option<usize>)
        requires
            old(self).linked(),
        ensures
            final(self).keyed == old(self).keyed,
            final(self).armings == old(self).armings,
            final(self).deadlines == old(self).deadlines,
            final(self).arming_orders == old(self).arming_orders,
            place is Some <==> old(self)@.has_key(*key),
            place is None ==> final(self).lookup_probes == old(self).lookup_probes,
            place is Some && alone_in_its_hash(old(self).keyed@, *key)
                ==> final(self).lookup_probes == saturating_next(old(self).lookup_probes),
            place matches Some(index) ==> {
                &&& index < old(self).keyed@.len()
                &&& old(self).keyed@[index as int].key == *key
                &&& old(self)@.order_of(*key) == old(self).keyed@[index as int].arming_order.0
            },
    {
        let mut index: usize = self.filing_place(key.hash, 0);
        let ghost first = index;
        let mut probes: u64 = 0;
        while index < self.keyed.len() && self.keyed[index].key.hash == key.hash
            invariant
                self.keyed == old(self).keyed,
                self.armings == old(self).armings,
                self.deadlines == old(self).deadlines,
                self.arming_orders == old(self).arming_orders,
                old(self).linked(),
                first <= index <= self.keyed@.len(),
                probes == index - first,
                self.lookup_probes == old(self).lookup_probes,
                forall|i: int|
                    first <= i < index ==> (#[trigger] self.keyed@[i]).key.hash == key.hash,
                forall|i: int| 0 <= i < index ==> (#[trigger] self.keyed@[i]).key != *key,
                forall|i: int|
                    first <= i < self.keyed@.len() ==> (#[trigger] self.keyed@[i]).key.hash
                        >= key.hash,
            ensures
                first <= index <= self.keyed@.len(),
                self.lookup_probes == old(self).lookup_probes,
                index < self.keyed@.len() ==> self.keyed@[index as int].key.hash != key.hash,
            decreases self.keyed@.len() - index,
        {
            probes = probes + 1;
            if self.keyed[index].key == *key {
                self.lookup_probes = self.lookup_probes.saturating_add(probes);
                proof {
                    if alone_in_its_hash(self.keyed@, *key) && index > first {
                        assert(self.keyed@[first as int].key.hash == key.hash);
                    }
                    lemma_place(self.keyed@, index as int);
                    let order = self.keyed@[index as int].arming_order.0;
                    assert(old(self)@.keyed_as(order, *key));
                    let found = old(self)@.order_of(*key);
                    assert(old(self)@.keyed_as(found, *key));
                    assert(old(self)@.entries[found].key == old(self)@.entries[order].key);
                }
                return Some(index);
            }
            index = index + 1;
        }
        proof {
            assert forall|i: int| 0 <= i < self.keyed@.len() implies (#[trigger] self.keyed@[i]).key
                != *key by {
                if i >= index {
                    if i > index {
                        assert(filed_before(self.keyed@[index as int], self.keyed@[i]));
                    }
                    assert(self.keyed@[index as int].key.hash > key.hash);
                }
            }
            if old(self)@.has_key(*key) {
                let order = old(self)@.order_of(*key);
                assert(old(self)@.keyed_as(order, *key));
                let i = place_of(self.keyed@, order);
                assert(is_at(self.keyed@, i, order));
                assert(self.keyed@[i].key == *key);
            }
        }
        None
    }

    /// Where the arming index has `order`.
    fn index_place(&self, order: u64) -> (place: Option<usize>)
        requires
            indexed_in_order(self.armings@),
        ensures
            place is Some <==> is_indexed(self.armings@, order),
            place matches Some(i) ==> indexes(self.armings@, i as int, order),
    {
        let mut low: usize = 0;
        let mut high: usize = self.armings.len();
        while low < high
            invariant
                low <= high <= self.armings@.len(),
                indexed_in_order(self.armings@),
                forall|i: int| 0 <= i < low ==> (#[trigger] self.armings@[i]).0 < order,
                forall|i: int|
                    high <= i < self.armings@.len() ==> (#[trigger] self.armings@[i]).0 > order,
            decreases high - low,
        {
            let middle: usize = low + (high - low) / 2;
            let found: u64 = self.armings[middle].0;
            if found == order {
                assert(indexes(self.armings@, middle as int, order));
                return Some(middle);
            } else if found < order {
                low = middle + 1;
            } else {
                high = middle;
            }
        }
        proof {
            if is_indexed(self.armings@, order) {
                let i = choose|i: int| indexes(self.armings@, i, order);
                assert(indexes(self.armings@, i, order));
                assert(self.armings@[i].0 == order);
            }
        }
        None
    }

    /// The first place whose deadline does not fire before `pair`.
    fn deadline_place(&self, at: Instant, order: u64) -> (place: usize)
        requires
            soonest_first(self.deadlines@),
        ensures
            place <= self.deadlines@.len(),
            forall|i: int|
                0 <= i < place ==> fires_before(#[trigger] self.deadlines@[i], (at, order)),
            forall|i: int|
                place <= i < self.deadlines@.len() ==> !fires_before(
                    #[trigger] self.deadlines@[i],
                    (at, order),
                ),
    {
        let mut low: usize = 0;
        let mut high: usize = self.deadlines.len();
        while low < high
            invariant
                low <= high <= self.deadlines@.len(),
                soonest_first(self.deadlines@),
                forall|i: int|
                    0 <= i < low ==> fires_before(#[trigger] self.deadlines@[i], (at, order)),
                forall|i: int|
                    high <= i < self.deadlines@.len() ==> !fires_before(
                        #[trigger] self.deadlines@[i],
                        (at, order),
                    ),
            decreases high - low,
        {
            let middle: usize = low + (high - low) / 2;
            let (found, found_order) = self.deadlines[middle];
            let earlier = found.before(&at) || (!at.before(&found) && found_order < order);
            if earlier {
                proof {
                    assert forall|i: int| 0 <= i < middle + 1 implies fires_before(
                        #[trigger] self.deadlines@[i],
                        (at, order),
                    ) by {
                        if i < middle {
                            assert(fires_before(
                                self.deadlines@[i],
                                self.deadlines@[middle as int],
                            ));
                        }
                    }
                }
                low = middle + 1;
            } else {
                proof {
                    assert forall|i: int| middle <= i < self.deadlines@.len() implies !fires_before(
                        #[trigger] self.deadlines@[i],
                        (at, order),
                    ) by {
                        if middle < i {
                            assert(fires_before(
                                self.deadlines@[middle as int],
                                self.deadlines@[i],
                            ));
                        }
                    }
                }
                high = middle;
            }
        }
        low
    }

    /// Takes the timer filed at `place` out of every index. The arming index is
    /// cleared by arming order, whatever hash it recorded.
    fn unlink(&mut self, place: usize) -> (entry: TimerEntry<M>)
        requires
            old(self).linked(),
            place < old(self).keyed@.len(),
        ensures
            entry == old(self).keyed@[place as int],
            final(self).linked(),
            old(self).wf() ==> final(self).wf(),
            final(self)@ == old(self)@.without(entry.arming_order.0),
            final(self).lookup_probes == old(self).lookup_probes,
            final(self).keyed@ == old(self).keyed@.remove(place as int),
    {
        let entry = self.keyed.remove(place);
        let order: u64 = entry.arming_order.0;
        proof {
            lemma_place(old(self).keyed@, place as int);
            lemma_unfile(old(self).keyed@, place as int);
        }
        if let Some(i) = self.index_place(order) {
            self.armings.remove(i);
        }
        if let Some(deadline) = entry.deadline {
            let i: usize = self.deadline_place(deadline, order);
            if i < self.deadlines.len() && self.deadlines[i].1 == order && self.deadlines[i].0
                == deadline {
                self.deadlines.remove(i);
            }
        }
        proof {
            lemma_unlinked(*old(self), *self, entry);
        }
        entry
    }
}

/// What delivering a fired timer finds.
#[derive(Debug)]
pub enum IntervalRearm<M> {
    /// The timer is gone.
    Missing,
    /// The timer fires once.
    OneShot,
    /// An interval, armed again; delivers this copy.
    Interval(M),
}

impl<M> TimerStore<M> {
    /// Takes the timer under `key`.
    pub fn take(&mut self, key: &TimerKey) -> (taken: Option<TimerEntry<M>>)
        requires
            old(self).linked(),
        ensures
            final(self).linked(),
            old(self).wf() ==> final(self).wf(),
            taken is Some <==> old(self)@.has_key(*key),
            taken matches Some(entry) ==> entry == old(self)@.entries[old(self)@.order_of(*key)],
            final(self)@ == old(self)@.cleared(*key),
            taken is None ==> final(self).lookup_probes == old(self).lookup_probes,
            taken is Some && alone_in_its_hash(old(self).keyed@, *key)
                ==> final(self).lookup_probes == saturating_next(old(self).lookup_probes),
            forall|i: int|
                0 <= i < final(self).keyed@.len() ==> (#[trigger] final(self).keyed@[i]).key
                    != *key,
    {
        match self.locate(key) {
            Some(place) => {
                proof {
                    lemma_place(self.keyed@, place as int);
                    assert forall|i: int| 0 <= i < self.keyed@.len() && i != place implies (
                    #[trigger] self.keyed@[i]).key != *key by {}
                }
                Some(self.unlink(place))
            },
            None => {
                proof {
                    assert forall|i: int| 0 <= i < self.keyed@.len() implies (
                    #[trigger] self.keyed@[i]).key != *key by {
                        lemma_place(self.keyed@, i);
                        if self.keyed@[i].key == *key {
                            assert(self@.keyed_as(self.keyed@[i].arming_order.0, *key));
                        }
                    }
                }
                None
            },
        }
    }

    /// Destroys the timer under `key`; reports whether there was one.
    pub fn remove(&mut self, key: &TimerKey, garbage: &mut Vec<Garbage<M>>) -> (removed: bool)
        requires
            old(self).linked(),
        ensures
            final(self).linked(),
            old(self).wf() ==> final(self).wf(),
            removed == old(self)@.has_key(*key),
            final(self)@ == old(self)@.cleared(*key),
            final(garbage)@ == old(garbage)@ + old(self)@.garbage_of(*key),
            forall|i: int|
                0 <= i < final(self).keyed@.len() ==> (#[trigger] final(self).keyed@[i]).key
                    != *key,
    {
        match self.take(key) {
            Some(entry) => {
                garbage.push(Garbage::Key(entry.key));
                garbage.push(Garbage::Message(entry.message.into_message()));
                proof {
                    assert(garbage@ =~= old(garbage)@ + old(self)@.garbage_of(*key));
                }
                true
            },
            None => {
                proof {
                    assert(garbage@ =~= old(garbage)@ + old(self)@.garbage_of(*key));
                }
                false
            },
        }
    }

    /// Destroys the timer under `key`, and a key and message nobody will use.
    pub fn clear_and_dispose(&mut self, key: TimerKey, message: M, garbage: &mut Vec<Garbage<M>>)
        requires
            old(self).linked(),
        ensures
            final(self).linked(),
            old(self).wf() ==> final(self).wf(),
            final(self)@ == old(self)@.cleared(key),
            final(garbage)@ == old(garbage)@ + old(self)@.garbage_of(key) + seq![
                Garbage::Key(key),
                Garbage::Message(message),
            ],
    {
        let _ = self.remove(&key, garbage);
        garbage.push(Garbage::Key(key));
        garbage.push(Garbage::Message(message));
        proof {
            assert(garbage@ =~= old(garbage)@ + old(self)@.garbage_of(key) + seq![
                Garbage::Key(key),
                Garbage::Message(message),
            ]);
        }
    }

    /// Installs a timer under a fresh arming order, destroying the one it
    /// replaces. Once arming orders are spent nothing is installed, and the
    /// message and key are destroyed.
    pub fn replace(
        &mut self,
        key: TimerKey,
        deadline: Option<Instant>,
        message: TimerMessage<M>,
        period: Option<Duration>,
        garbage: &mut Vec<Garbage<M>>,
    ) -> (installed: Option<ArmingOrder>)
        requires
            old(self).wf(),
            period is Some <==> message is Interval,
        ensures
            final(self).wf(),
            installed is None <==> old(self)@.minted == u64::MAX,
            installed is None ==> final(self)@ == old(self)@ && final(garbage)@ == old(garbage)@
                + seq![Garbage::Message(message.message()), Garbage::Key(key)],
            installed matches Some(order) ==> {
                &&& order.0 == old(self)@.minted + 1
                &&& final(self)@ == old(self)@.cleared(key).with(
                    TimerEntry { key, deadline, arming_order: order, message, period },
                )
                &&& final(garbage)@ == old(garbage)@ + old(self)@.garbage_of(key)
            },
    {
        let arming_order = match self.arming_orders.mint() {
            Some(order) => ArmingOrder(order),
            None => {
                garbage.push(Garbage::Message(message.into_message()));
                garbage.push(Garbage::Key(key));
                proof {
                    assert(garbage@ =~= old(garbage)@ + seq![
                        Garbage::Message(message.message()),
                        Garbage::Key(key),
                    ]);
                    lemma_minting(*old(self), *self);
                }
                return None;
            },
        };
        let ghost minted = *self;
        proof {
            lemma_minting(*old(self), minted);
        }
        let _ = self.remove(&key, garbage);
        let ghost cleared = *self;
        proof {
            assert forall|order: u64| minted@.keyed_as(order, key) == old(self)@.keyed_as(
                order,
                key,
            ) by {}
            assert(minted@.entries == old(self)@.entries);
            assert(minted@.has_key(key) == old(self)@.has_key(key)) by {
                if minted@.has_key(key) {
                    assert(old(self)@.keyed_as(minted@.order_of(key), key));
                }
                if old(self)@.has_key(key) {
                    assert(minted@.keyed_as(old(self)@.order_of(key), key));
                }
            }
            if minted@.has_key(key) {
                let a = minted@.order_of(key);
                let b = old(self)@.order_of(key);
                assert(minted@.keyed_as(a, key));
                assert(old(self)@.keyed_as(b, key));
                assert(minted@.entries[a].key == minted@.entries[b].key);
            }
        }
        let place: usize = self.filing_place(key.hash, arming_order.0);
        let entry = TimerEntry { key, deadline, arming_order, message, period };
        proof {
            assert forall|i: int| 0 <= i < self.keyed@.len() implies (
            #[trigger] self.keyed@[i]).arming_order.0 < arming_order.0 by {
                lemma_place(self.keyed@, i);
                let order = self.keyed@[i].arming_order.0;
                assert(old(self)@.entries.dom().contains(order));
                assert(old(self)@.entries[order].arming_order.0 == order);
            }
            lemma_file(self.keyed@, place as int, entry);
            assert forall|i: int| 0 <= i < self.armings@.len() implies (
            #[trigger] self.armings@[i]).0 < arming_order.0 by {
                let order = self.armings@[i].0;
                assert(indexes(self.armings@, i, order));
                assert(is_filed(self.keyed@, order));
                assert(is_at(self.keyed@, place_of(self.keyed@, order), order));
            }
        }
        self.keyed.insert(place, entry);
        self.armings.push((arming_order.0, key.hash));
        if let Some(at) = deadline {
            let spot: usize = self.deadline_place(at, arming_order.0);
            proof {
                assert forall|i: int| 0 <= i < self.deadlines@.len() implies (
                #[trigger] self.deadlines@[i]).1 != arming_order.0 by {
                    assert(self.deadlines@.contains(self.deadlines@[i]));
                    assert(cleared@.armed.contains(self.deadlines@[i]));
                    assert(cleared@.entries.dom().contains(self.deadlines@[i].1));
                    let order = self.deadlines@[i].1;
                    assert(is_filed(cleared.keyed@, order));
                    assert(is_at(cleared.keyed@, place_of(cleared.keyed@, order), order));
                }
            }
            self.deadlines.insert(spot, (at, arming_order.0));
        }
        proof {
            lemma_installed(cleared, *self, entry, place as int);
        }
        Some(arming_order)
    }
}

/// What destroying a run of entries adds to the garbage: each key, then its
/// message.
pub open spec fn garbage_of_all<M>(entries: Seq<TimerEntry<M>>) -> Seq<Garbage<M>>
    decreases entries.len(),
{
    if entries.len() == 0 {
        seq![]
    } else {
        garbage_of_all(entries.drop_last()) + seq![
            Garbage::Key(entries.last().key),
            Garbage::Message(entries.last().message.message()),
        ]
    }
}

impl<M> TimerModel<M> {
    /// The store with timer `order` armed for its next period.
    pub open spec fn rearmed(self, order: u64, deadline: Option<Instant>) -> TimerModel<M> {
        TimerModel {
            entries: self.entries.insert(
                order,
                TimerEntry { deadline, ..self.entries[order] },
            ),
            armed: match deadline {
                Some(at) => self.armed.insert((at, order)),
                None => self.armed,
            },
            ..self
        }
    }

    /// The deadlines due at `now`.
    pub open spec fn due(self, now: Instant) -> Set<Armed> {
        self.armed.filter(|pair: Armed| pair.0@ <= now@)
    }

    /// The timers due at `now`, soonest first and older armings first among
    /// equal deadlines.
    pub open spec fn due_orders(self, now: Instant) -> Seq<ArmingOrder> {
        let pairs = choose|pairs: Seq<Armed>| in_firing_order(pairs, self.due(now));
        Seq::new(pairs.len(), |i: int| ArmingOrder(pairs[i].1))
    }

    /// Whether `orders` are exactly the timers due at `now`, each once, soonest
    /// first and older armings first among equal deadlines.
    pub open spec fn lists_due(self, now: Instant, orders: Seq<ArmingOrder>) -> bool {
        &&& forall|i: int|
            0 <= i < orders.len() ==> {
                &&& self.entries.dom().contains((#[trigger] orders[i]).0)
                &&& self.entries[orders[i].0].deadline is Some
                &&& self.entries[orders[i].0].deadline->Some_0@ <= now@
                &&& self.armed.contains(
                    (self.entries[orders[i].0].deadline->Some_0, orders[i].0),
                )
            }
        &&& forall|i: int, j: int|
            0 <= i < j < orders.len() ==> #[trigger] orders[i] != #[trigger] orders[j]
                && fires_before(
                (self.entries[orders[i].0].deadline->Some_0, orders[i].0),
                (self.entries[orders[j].0].deadline->Some_0, orders[j].0),
            )
        &&& forall|pair: Armed| #[trigger]
            self.armed.contains(pair) && pair.0@ <= now@ ==> orders.contains(ArmingOrder(pair.1))
    }

    /// The store once the deadlines due at `now` were taken; their timers stay
    /// installed.
    pub open spec fn after_due(self, now: Instant) -> TimerModel<M> {
        TimerModel { armed: self.armed.filter(|pair: Armed| pair.0@ > now@), ..self }
    }

    /// Whether `at` is the soonest deadline still to fire.
    pub open spec fn soonest(self, at: Instant) -> bool {
        &&& exists|order: u64| #[trigger] self.armed.contains((at, order))
        &&& forall|pair: Armed| #[trigger] self.armed.contains(pair) ==> at@ <= pair.0@
    }

    /// Whether no deadline of timer `order` is still to fire.
    pub open spec fn fired(self, order: u64) -> bool {
        forall|pair: Armed| #[trigger] self.armed.contains(pair) ==> pair.1 != order
    }
}

impl<M> TimerStore<M> {
    /// Destroys every timer.
    pub fn clear(&mut self, garbage: &mut Vec<Garbage<M>>)
        requires
            old(self).linked(),
        ensures
            final(self).wf(),
            final(self)@.entries == Map::<u64, TimerEntry<M>>::empty(),
            final(self)@.armed == Set::<Armed>::empty(),
            final(self)@.minted == old(self)@.minted,
            final(garbage)@ == old(garbage)@ + garbage_of_all(old(self).keyed@),
    {
        let mut keyed: Vec<TimerEntry<M>> = Vec::new();
        core::mem::swap(&mut self.keyed, &mut keyed);
        self.armings.clear();
        self.deadlines.clear();
        proof {
            assert(by_order(self.keyed@) =~= Map::<u64, TimerEntry<M>>::empty());
            assert(self@.armed =~= Set::<Armed>::empty());
            assert forall|order: u64| #[trigger] is_filed(self.keyed@, order) == is_indexed(
                self.armings@,
                order,
            ) by {}
            assert(garbage@ + garbage_of_all(keyed@.take(0)) =~= garbage@) by {
                assert(keyed@.take(0) =~= seq![]);
            }
        }
        let ghost all = keyed@;
        let ghost mut done: int = 0;
        while keyed.len() > 0
            invariant
                0 <= done <= all.len(),
                keyed@ == all.skip(done),
                garbage@ == old(garbage)@ + garbage_of_all(all.take(done)),
            decreases all.len() - done,
        {
            let entry = keyed.remove(0);
            garbage.push(Garbage::Key(entry.key));
            garbage.push(Garbage::Message(entry.message.into_message()));
            proof {
                assert(entry == all[done]);
                assert(all.take(done + 1).drop_last() =~= all.take(done));
                assert(keyed@ =~= all.skip(done + 1));
                done = done + 1;
                assert(garbage@ =~= old(garbage)@ + garbage_of_all(all.take(done)));
            }
        }
        proof {
            assert(all.take(done) =~= all);
        }
    }

    /// Where the timer `order` is filed, found through the arming index.
    fn locate_arming(&self, order: ArmingOrder) -> (place: Option<usize>)
        requires
            self.wf(),
        ensures
            place is Some <==> self@.entries.dom().contains(order.0),
            place matches Some(index) ==> {
                &&& index < self.keyed@.len()
                &&& self.keyed@[index as int].arming_order == order
                &&& self.keyed@[index as int] == self@.entries[order.0]
            },
    {
        match self.index_place(order.0) {
            None => {
                assert(is_filed(self.keyed@, order.0) == is_indexed(self.armings@, order.0));
                None
            },
            Some(spot) => {
                let hash: u64 = self.armings[spot].1;
                let place: usize = self.filing_place(hash, order.0);
                proof {
                    assert(is_filed(self.keyed@, order.0));
                    let actual = place_of(self.keyed@, order.0);
                    assert(is_at(self.keyed@, actual, order.0));
                    assert(self.armings@[spot as int].1 == self.keyed@[actual].key.hash);
                    if place < actual {
                        assert(filed_before(self.keyed@[place as int], self.keyed@[actual]));
                    }
                    lemma_place(self.keyed@, actual);
                }
                Some(place)
            },
        }
    }

    /// Takes a one-shot timer out for delivery. Its key is destroyed, its
    /// message handed out.
    pub fn take_due_once(&mut self, order: ArmingOrder, garbage: &mut Vec<Garbage<M>>) -> (message:
        Option<M>)
        requires
            old(self).wf(),
            old(self)@.entries.dom().contains(order.0)
                ==> old(self)@.entries[order.0].message is Once,
        ensures
            final(self).wf(),
            message is Some <==> old(self)@.entries.dom().contains(order.0),
            message is None ==> final(self)@ == old(self)@ && final(garbage)@ == old(garbage)@,
            message matches Some(taken) ==> {
                &&& taken == old(self)@.entries[order.0].message.message()
                &&& final(self)@ == old(self)@.without(order.0)
                &&& final(garbage)@ == old(garbage)@.push(
                    Garbage::Key(old(self)@.entries[order.0].key),
                )
            },
    {
        match self.locate_arming(order) {
            None => None,
            Some(place) => {
                let entry = self.unlink(place);
                garbage.push(Garbage::Key(entry.key));
                Some(entry.message.into_message())
            },
        }
    }

    /// Takes every deadline due at `now`, soonest first and older armings first
    /// among equal ones. Their timers stay installed until delivered.
    pub fn take_due(&mut self, now: Instant) -> (due: Vec<ArmingOrder>)
        requires
            old(self).wf(),
        ensures
            final(self).wf(),
            final(self)@ == old(self)@.after_due(now),
            due@ == old(self)@.due_orders(now),
            old(self)@.lists_due(now, due@),
    {
        let count: usize = self.deadline_place(now, u64::MAX);
        // The bound above leaves out a deadline at `now` of the last arming
        // order there can be.
        let count: usize = if count < self.deadlines.len() && !now.before(&self.deadlines[count].0) {
            count + 1
        } else {
            count
        };
        let ghost all = self.deadlines@;
        proof {
            if 0 < count < all.len() {
                assert(fires_before(all[count - 1], all[count as int]));
            }
            lemma_due_prefix(all, now, count as int);
        }
        let mut due: Vec<ArmingOrder> = Vec::new();
        let mut index: usize = 0;
        while index < count
            invariant
                index <= count <= all.len(),
                self.deadlines@ == all,
                due@.len() == index,
                forall|i: int| 0 <= i < index ==> (#[trigger] due@[i]).0 == all[i].1,
            decreases count - index,
        {
            due.push(ArmingOrder(self.deadlines[index].1));
            index = index + 1;
        }
        let rest = self.deadlines.split_off(count);
        self.deadlines = rest;
        proof {
            assert(self.deadlines@ =~= all.skip(count as int));
            lemma_due_taken(*old(self), *self, now, count as int, due@);
            lemma_store_is_listed(*old(self));
            law_a_fire_takes_each_due_timer_once(old(self)@, now);
        }
        due
    }

    /// The soonest deadline still to fire.
    pub fn next_deadline(&self) -> (next: Option<Instant>)
        requires
            self.linked(),
        ensures
            next is None <==> self@.armed =~= Set::<Armed>::empty(),
            next matches Some(at) ==> self@.soonest(at),
    {
        if self.deadlines.len() == 0 {
            assert(self@.armed =~= Set::<Armed>::empty());
            None
        } else {
            let at = self.deadlines[0].0;
            proof {
                let first = self.deadlines@[0];
                let order = first.1;
                assert(self.deadlines@.contains(first));
                assert(first == (at, order));
                assert(self@.armed.contains((at, order)));
                assert forall|pair: Armed| #[trigger] self@.armed.contains(pair) implies first.0@
                    <= pair.0@ by {
                    let k = choose|k: int|
                        0 <= k < self.deadlines@.len() && self.deadlines@[k] == pair;
                    if k > 0 {
                        assert(fires_before(self.deadlines@[0], self.deadlines@[k]));
                    }
                }
            }
            assert(self@.soonest(at));
            Some(at)
        }
    }

    /// Delivers a fired interval: arms its next period from `now` and hands out
    /// a copy of its message. The copy is made first, so a copy that fails
    /// leaves the timer as it was. A period that overflows the clock leaves the
    /// timer installed and dormant.
    pub fn rearm_interval<F: Fn(&M) -> M>(
        &mut self,
        order: ArmingOrder,
        now: Instant,
        clone_message: &F,
    ) -> (rearm: IntervalRearm<M>)
        requires
            old(self).wf(),
            old(self)@.fired(order.0),
            forall|message: &M| #[trigger] call_requires(*clone_message, (message,)),
        ensures
            final(self).wf(),
            rearm is Missing <==> !old(self)@.entries.dom().contains(order.0),
            rearm is OneShot <==> old(self)@.entries.dom().contains(order.0)
                && old(self)@.entries[order.0].period is None,
            !(rearm is Interval) ==> final(self)@ == old(self)@,
            rearm matches IntervalRearm::Interval(copy) ==> {
                let entry = old(self)@.entries[order.0];
                &&& call_ensures(*clone_message, (&entry.message.message(),), copy)
                &&& final(self)@ == old(self)@.rearmed(
                    order.0,
                    now.later(entry.period->Some_0),
                )
            },
    {
        let place: usize = match self.locate_arming(order) {
            Some(place) => place,
            None => {
                return IntervalRearm::Missing;
            },
        };
        let period = match self.keyed[place].period {
            Some(period) => period,
            None => {
                return IntervalRearm::OneShot;
            },
        };
        let deadline = Deadline::after(now, period).instant();
        let copy = match &self.keyed[place].message {
            TimerMessage::Interval(message) => clone_message(message),
            TimerMessage::Once(message) => clone_message(message),
        };
        self.keyed[place].deadline = deadline;
        if let Some(at) = deadline {
            let spot: usize = self.deadline_place(at, order.0);
            proof {
                assert forall|i: int| 0 <= i < self.deadlines@.len() implies (
                #[trigger] self.deadlines@[i]).1 != order.0 by {
                    assert(self.deadlines@.contains(self.deadlines@[i]));
                    assert(old(self)@.armed.contains(self.deadlines@[i]));
                }
            }
            self.deadlines.insert(spot, (at, order.0));
        }
        proof {
            lemma_rearmed(*old(self), *self, order.0, place as int, deadline);
        }
        IntervalRearm::Interval(copy)
    }
}

impl<M> TimerModel<M> {
    /// The store once timer `order` was delivered at `now`: a one-shot leaves
    /// it, an interval is armed for its next period.
    pub open spec fn delivered(self, order: u64, now: Instant) -> TimerModel<M> {
        if !self.entries.dom().contains(order) {
            self
        } else {
            match self.entries[order].period {
                Some(period) => self.rearmed(order, now.later(period)),
                None => self.without(order),
            }
        }
    }

    /// What that delivery destroys: the key of a one-shot.
    pub open spec fn delivery_garbage(self, order: u64) -> Seq<Garbage<M>> {
        if self.entries.dom().contains(order) && self.entries[order].period is None {
            seq![Garbage::Key(self.entries[order].key)]
        } else {
            seq![]
        }
    }
}

impl<M> TimerStore<M> {
    /// Whether timer `order` is installed and an interval.
    pub fn is_interval(&self, order: ArmingOrder) -> (interval: bool)
        requires
            self.wf(),
        ensures
            interval == (self@.entries.dom().contains(order.0)
                && self@.entries[order.0].period is Some),
    {
        match self.locate_arming(order) {
            Some(place) => self.keyed[place].period.is_some(),
            None => false,
        }
    }

    /// Delivers fired timer `order`, if it is still installed: the message of a
    /// one-shot, or a copy of an interval's, which is armed again.
    pub fn deliver_due<F: Fn(&M) -> M>(
        &mut self,
        order: ArmingOrder,
        now: Instant,
        clone_message: &F,
        garbage: &mut Vec<Garbage<M>>,
    ) -> (message: Option<M>)
        requires
            old(self).wf(),
            old(self)@.fired(order.0),
            forall|message: &M| #[trigger] call_requires(*clone_message, (message,)),
        ensures
            final(self).wf(),
            final(self)@ == old(self)@.delivered(order.0, now),
            final(garbage)@ == old(garbage)@ + old(self)@.delivery_garbage(order.0),
            message is Some <==> old(self)@.entries.dom().contains(order.0),
            message matches Some(delivered) ==> {
                let entry = old(self)@.entries[order.0];
                match entry.period {
                    Some(_) => call_ensures(
                        *clone_message,
                        (&entry.message.message(),),
                        delivered,
                    ),
                    None => delivered == entry.message.message(),
                }
            },
    {
        let message = match self.rearm_interval(order, now, clone_message) {
            IntervalRearm::Missing => None,
            IntervalRearm::Interval(message) => Some(message),
            IntervalRearm::OneShot => {
                assert(self@.entries[order.0].message is Once);
                self.take_due_once(order, garbage)
            },
        };
        proof {
            assert(garbage@ =~= old(garbage)@ + old(self)@.delivery_garbage(order.0));
        }
        message
    }
}

/// The deadlines due at `now` are a prefix.
proof fn lemma_due_prefix(deadlines: Seq<Armed>, now: Instant, count: int)
    requires
        soonest_first(deadlines),
        0 <= count <= deadlines.len(),
        count > 0 ==> deadlines[count - 1].0@ <= now@,
        count < deadlines.len() ==> deadlines[count].0@ > now@,
    ensures
        forall|i: int| 0 <= i < count ==> (#[trigger] deadlines[i]).0@ <= now@,
        forall|i: int| count <= i < deadlines.len() ==> (#[trigger] deadlines[i]).0@ > now@,
{
    assert forall|i: int| 0 <= i < count implies (#[trigger] deadlines[i]).0@ <= now@ by {
        if i < count - 1 {
            assert(fires_before(deadlines[i], deadlines[count - 1]));
        }
    }
    assert forall|i: int| count <= i < deadlines.len() implies (#[trigger] deadlines[i]).0@
        > now@ by {
        if count < i {
            assert(fires_before(deadlines[count], deadlines[i]));
        }
    }
}

/// Two sequences that stand soonest first and hold the same deadlines are equal.
proof fn lemma_one_firing_order(left: Seq<Armed>, right: Seq<Armed>)
    requires
        soonest_first(left),
        soonest_first(right),
        forall|pair: Armed| #[trigger] left.contains(pair) <==> right.contains(pair),
    ensures
        left == right,
    decreases left.len(),
{
    broadcast use crate::time::lemma_instant_extensional;

    if left.len() == 0 {
        if right.len() > 0 {
            assert(right.contains(right[0]));
            assert(left.contains(right[0]));
        }
        assert(left =~= right);
    } else {
        assert(left.contains(left[0]));
        assert(right.contains(left[0]));
        let i = choose|i: int| 0 <= i < right.len() && right[i] == left[0];
        assert(right.contains(right[0]));
        assert(left.contains(right[0]));
        let j = choose|j: int| 0 <= j < left.len() && left[j] == right[0];
        if i > 0 {
            assert(fires_before(right[0], right[i]));
            if j > 0 {
                assert(fires_before(left[0], left[j]));
            }
        }
        assert(left[0] == right[0]);
        let left_rest = left.skip(1);
        let right_rest = right.skip(1);
        assert forall|a: int, b: int| 0 <= a < b < left_rest.len() implies fires_before(
            left_rest[a],
            left_rest[b],
        ) by {
            assert(fires_before(left[a + 1], left[b + 1]));
        }
        assert forall|a: int, b: int| 0 <= a < b < right_rest.len() implies fires_before(
            right_rest[a],
            right_rest[b],
        ) by {
            assert(fires_before(right[a + 1], right[b + 1]));
        }
        assert forall|pair: Armed| #[trigger] left_rest.contains(pair) == right_rest.contains(
            pair,
        ) by {
            if left_rest.contains(pair) {
                let k = choose|k: int| 0 <= k < left_rest.len() && left_rest[k] == pair;
                assert(left[k + 1] == pair);
                assert(left.contains(pair));
                assert(right.contains(pair));
                assert(fires_before(left[0], left[k + 1]));
                let m = choose|m: int| 0 <= m < right.len() && right[m] == pair;
                assert(m > 0);
                assert(right_rest[m - 1] == pair);
            }
            if right_rest.contains(pair) {
                let k = choose|k: int| 0 <= k < right_rest.len() && right_rest[k] == pair;
                assert(right[k + 1] == pair);
                assert(right.contains(pair));
                assert(left.contains(pair));
                assert(fires_before(right[0], right[k + 1]));
                let m = choose|m: int| 0 <= m < left.len() && left[m] == pair;
                assert(m > 0);
                assert(left_rest[m - 1] == pair);
            }
        }
        lemma_one_firing_order(left_rest, right_rest);
        assert(left =~= seq![left[0]] + left_rest);
        assert(right =~= seq![right[0]] + right_rest);
    }
}

/// Taking the due prefix leaves the rest armed and every timer installed.
proof fn lemma_due_taken<M>(
    before: TimerStore<M>,
    after: TimerStore<M>,
    now: Instant,
    count: int,
    due: Seq<ArmingOrder>,
)
    requires
        before.wf(),
        after.keyed == before.keyed,
        after.armings == before.armings,
        after.arming_orders == before.arming_orders,
        0 <= count <= before.deadlines@.len(),
        after.deadlines@ == before.deadlines@.skip(count),
        forall|i: int| 0 <= i < count ==> (#[trigger] before.deadlines@[i]).0@ <= now@,
        forall|i: int|
            count <= i < before.deadlines@.len() ==> (#[trigger] before.deadlines@[i]).0@ > now@,
        due.len() == count,
        forall|i: int| 0 <= i < count ==> (#[trigger] due[i]).0 == before.deadlines@[i].1,
    ensures
        after.wf(),
        after@ == before@.after_due(now),
        due == before@.due_orders(now),
{
    assert forall|pair: Armed| #[trigger]
        after@.armed.contains(pair) == before@.after_due(now).armed.contains(pair) by {
        if after.deadlines@.contains(pair) {
            let k = choose|k: int| 0 <= k < after.deadlines@.len() && after.deadlines@[k] == pair;
            assert(before.deadlines@[k + count] == pair);
        }
        if before.deadlines@.contains(pair) && pair.0@ > now@ {
            let k = choose|k: int|
                0 <= k < before.deadlines@.len() && before.deadlines@[k] == pair;
            assert(after.deadlines@[k - count] == pair);
        }
    }
    assert(after@ =~= before@.after_due(now));
    assert forall|i: int, j: int| 0 <= i < j < after.deadlines@.len() implies fires_before(
        after.deadlines@[i],
        after.deadlines@[j],
    ) by {
        assert(after.deadlines@[i] == before.deadlines@[i + count]);
        assert(after.deadlines@[j] == before.deadlines@[j + count]);
    }
    assert forall|pair: Armed| #[trigger] after@.armed.contains(pair) implies after@.entries.dom().contains(
        pair.1,
    ) && after@.entries[pair.1].deadline == Some(pair.0) by {
        assert(before@.armed.contains(pair));
    }
    let prefix = before.deadlines@.take(count);
    assert(in_firing_order(prefix, before@.due(now))) by {
        assert forall|pair: Armed| #[trigger] prefix.contains(pair) == before@.due(now).contains(
            pair,
        ) by {
            if prefix.contains(pair) {
                let k = choose|k: int| 0 <= k < prefix.len() && prefix[k] == pair;
                assert(before.deadlines@[k] == pair);
            }
            if before.deadlines@.contains(pair) && pair.0@ <= now@ {
                let k = choose|k: int|
                    0 <= k < before.deadlines@.len() && before.deadlines@[k] == pair;
                assert(prefix[k] == pair);
            }
        }
    }
    let chosen = choose|pairs: Seq<Armed>| in_firing_order(pairs, before@.due(now));
    assert(in_firing_order(chosen, before@.due(now)));
    assert forall|pair: Armed| #[trigger] chosen.contains(pair) == prefix.contains(pair) by {
        assert(before@.due(now).contains(pair) == prefix.contains(pair));
    }
    lemma_one_firing_order(chosen, prefix);
    assert(due =~= before@.due_orders(now));
}

/// Arming a fired interval again changes its deadline and nothing else.
proof fn lemma_rearmed<M>(
    before: TimerStore<M>,
    after: TimerStore<M>,
    order: u64,
    place: int,
    deadline: Option<Instant>,
)
    requires
        before.wf(),
        before@.fired(order),
        is_at(before.keyed@, place, order),
        after.arming_orders == before.arming_orders,
        after.armings == before.armings,
        after.keyed@ == before.keyed@.update(
            place,
            TimerEntry { deadline, ..before.keyed@[place] },
        ),
        deadline is None ==> after.deadlines@ == before.deadlines@,
        deadline matches Some(at) ==> exists|i: int|
            0 <= i <= before.deadlines@.len() && #[trigger] before.deadlines@.insert(
                i,
                (at, order),
            ) == after.deadlines@ && (forall|k: int|
                0 <= k < i ==> fires_before(#[trigger] before.deadlines@[k], (at, order))) && (
            forall|k: int|
                i <= k < before.deadlines@.len() ==> fires_before(
                    (at, order),
                    #[trigger] before.deadlines@[k],
                )),
    ensures
        after.wf(),
        after@ == before@.rearmed(order, deadline),
{
    lemma_place(before.keyed@, place);
    assert forall|a: int, b: int|
        #![trigger after.keyed@[a], after.keyed@[b]]
        0 <= a < after.keyed@.len() && 0 <= b < after.keyed@.len() implies {
        &&& a < b ==> filed_before(after.keyed@[a], after.keyed@[b])
        &&& after.keyed@[a].arming_order == after.keyed@[b].arming_order ==> a == b
        &&& after.keyed@[a].key == after.keyed@[b].key ==> a == b
    } by {
        let x = before.keyed@[a];
        let y = before.keyed@[b];
    }
    assert forall|o: u64| #[trigger] is_filed(after.keyed@, o) == is_filed(before.keyed@, o) by {
        if is_filed(after.keyed@, o) {
            let i = place_of(after.keyed@, o);
            assert(is_at(after.keyed@, i, o));
            assert(is_at(before.keyed@, i, o));
        }
        if is_filed(before.keyed@, o) {
            let i = place_of(before.keyed@, o);
            assert(is_at(before.keyed@, i, o));
            assert(is_at(after.keyed@, i, o));
        }
    }
    assert forall|o: u64| is_filed(before.keyed@, o) implies #[trigger] place_of(after.keyed@, o)
        == place_of(before.keyed@, o) by {
        let i = place_of(before.keyed@, o);
        assert(is_at(before.keyed@, i, o));
        assert(is_at(after.keyed@, i, o));
        lemma_place(after.keyed@, i);
    }
    assert(after@.entries =~= before@.rearmed(order, deadline).entries);
    assert forall|pair: Armed| #[trigger]
        after@.armed.contains(pair) == before@.rearmed(order, deadline).armed.contains(pair) by {
        if let Some(at) = deadline {
            let i = choose|i: int|
                0 <= i <= before.deadlines@.len() && #[trigger] before.deadlines@.insert(
                    i,
                    (at, order),
                ) == after.deadlines@;
            assert(after.deadlines@[i] == (at, order));
            if after.deadlines@.contains(pair) {
                let k = choose|k: int|
                    0 <= k < after.deadlines@.len() && after.deadlines@[k] == pair;
                if k != i {
                    let x = if k < i { k } else { k - 1 };
                    assert(before.deadlines@[x] == pair);
                }
            }
            if before.deadlines@.contains(pair) {
                let k = choose|k: int|
                    0 <= k < before.deadlines@.len() && before.deadlines@[k] == pair;
                let x = if k < i { k } else { k + 1 };
                assert(after.deadlines@[x] == pair);
            }
        }
    }
    assert(after@.armed =~= before@.rearmed(order, deadline).armed);
    assert(after@ =~= before@.rearmed(order, deadline));
    if let Some(at) = deadline {
        let i = choose|i: int|
            0 <= i <= before.deadlines@.len() && #[trigger] before.deadlines@.insert(
                i,
                (at, order),
            ) == after.deadlines@ && (forall|k: int|
                0 <= k < i ==> fires_before(#[trigger] before.deadlines@[k], (at, order))) && (
            forall|k: int|
                i <= k < before.deadlines@.len() ==> fires_before(
                    (at, order),
                    #[trigger] before.deadlines@[k],
                ));
        assert forall|a: int, b: int| 0 <= a < b < after.deadlines@.len() implies fires_before(
            after.deadlines@[a],
            after.deadlines@[b],
        ) by {
            if a != i {
                assert(after.deadlines@[a] == before.deadlines@[if a < i { a } else { a - 1 }]);
            }
            if b != i {
                assert(after.deadlines@[b] == before.deadlines@[if b < i { b } else { b - 1 }]);
            }
        }
    }
    assert forall|pair: Armed| #[trigger] after@.armed.contains(pair) implies after@.entries.dom().contains(
        pair.1,
    ) && after@.entries[pair.1].deadline == Some(pair.0) by {
        if before@.armed.contains(pair) {
            assert(before@.entries.dom().contains(pair.1));
            assert(pair.1 != order);
        }
    }
    assert forall|a: u64, b: u64|
        #![trigger after@.entries[a], after@.entries[b]]
        after@.entries.dom().contains(a) && after@.entries.dom().contains(b)
            && after@.entries[a].key == after@.entries[b].key implies a == b by {
        assert(before@.entries[a].key == after@.entries[a].key);
        assert(before@.entries[b].key == after@.entries[b].key);
    }
    assert forall|o: u64|
        #![trigger after@.entries[o]]
        after@.entries.dom().contains(o) implies {
        &&& after@.entries[o].arming_order.0 == o
        &&& o <= after@.minted
        &&& after@.entries[o].period is Some <==> after@.entries[o].message is Interval
    } by {
        assert(before@.entries[o].arming_order.0 == o);
    }
    assert forall|k: int| 0 <= k < after.armings@.len() implies (#[trigger] after.armings@[k]).1
        == after.keyed@[place_of(after.keyed@, after.armings@[k].0)].key.hash by {
        let o = after.armings@[k].0;
        assert(indexes(before.armings@, k, o));
        assert(is_filed(before.keyed@, o));
        assert(is_at(before.keyed@, place_of(before.keyed@, o), o));
        assert(place_of(after.keyed@, o) == place_of(before.keyed@, o));
    }
    assert forall|o: u64| #[trigger]
        is_filed(after.keyed@, o) == is_indexed(after.armings@, o) by {
        assert(is_filed(before.keyed@, o) == is_indexed(before.armings@, o));
    }
}

/// Minting an arming order keeps the store well formed.
proof fn lemma_minting<M>(before: TimerStore<M>, after: TimerStore<M>)
    requires
        before.wf(),
        after.keyed == before.keyed,
        after.armings == before.armings,
        after.deadlines == before.deadlines,
        after.arming_orders@ >= before.arming_orders@,
    ensures
        after.wf(),
        after@ == (TimerModel { minted: after.arming_orders@, ..before@ }),
{
    assert(after@ =~= (TimerModel { minted: after.arming_orders@, ..before@ }));
    assert forall|order: u64|
        #![trigger after@.entries[order]]
        after@.entries.dom().contains(order) implies {
        &&& after@.entries[order].arming_order.0 == order
        &&& order <= after@.minted
        &&& after@.entries[order].period is Some <==> after@.entries[order].message is Interval
    } by {
        assert(before@.entries[order].arming_order.0 == order);
    }
    assert forall|pair: Armed| #[trigger] after@.armed.contains(pair) implies after@.entries.dom().contains(
        pair.1,
    ) && after@.entries[pair.1].deadline == Some(pair.0) by {
        assert(before@.armed.contains(pair));
    }
}

/// Filing a fresh timer in every index installs it.
proof fn lemma_installed<M>(
    before: TimerStore<M>,
    after: TimerStore<M>,
    entry: TimerEntry<M>,
    place: int,
)
    requires
        before.wf(),
        before@.minted == entry.arming_order.0,
        !is_filed(before.keyed@, entry.arming_order.0),
        forall|i: int| 0 <= i < before.keyed@.len() ==> (#[trigger] before.keyed@[i]).key
            != entry.key,
        entry.period is Some <==> entry.message is Interval,
        after.arming_orders == before.arming_orders,
        0 <= place <= before.keyed@.len(),
        after.keyed@ == before.keyed@.insert(place, entry),
        well_filed(after.keyed@),
        by_order(after.keyed@) == by_order(before.keyed@).insert(entry.arming_order.0, entry),
        after.armings@ == before.armings@.push((entry.arming_order.0, entry.key.hash)),
        forall|i: int| 0 <= i < before.armings@.len() ==> (#[trigger] before.armings@[i]).0
            < entry.arming_order.0,
        entry.deadline is None ==> after.deadlines@ == before.deadlines@,
        entry.deadline matches Some(at) ==> exists|i: int|
            0 <= i <= before.deadlines@.len() && #[trigger] before.deadlines@.insert(
                i,
                (at, entry.arming_order.0),
            ) == after.deadlines@ && (forall|k: int|
                0 <= k < i ==> fires_before(
                    #[trigger] before.deadlines@[k],
                    (at, entry.arming_order.0),
                )) && (forall|k: int|
                i <= k < before.deadlines@.len() ==> fires_before(
                    (at, entry.arming_order.0),
                    #[trigger] before.deadlines@[k],
                )),
    ensures
        after.wf(),
        after@ == before@.with(entry),
{
    let order = entry.arming_order.0;
    assert forall|pair: Armed| #[trigger]
        after@.armed.contains(pair) == before@.with(entry).armed.contains(pair) by {
        if let Some(at) = entry.deadline {
            let i = choose|i: int|
                0 <= i <= before.deadlines@.len() && #[trigger] before.deadlines@.insert(
                    i,
                    (at, order),
                ) == after.deadlines@;
            assert(after.deadlines@[i] == (at, order));
            if after.deadlines@.contains(pair) {
                let k = choose|k: int|
                    0 <= k < after.deadlines@.len() && after.deadlines@[k] == pair;
                if k != i {
                    let x = if k < i { k } else { k - 1 };
                    assert(before.deadlines@[x] == pair);
                }
            }
            if before.deadlines@.contains(pair) {
                let k = choose|k: int|
                    0 <= k < before.deadlines@.len() && before.deadlines@[k] == pair;
                let x = if k < i { k } else { k + 1 };
                assert(after.deadlines@[x] == pair);
            }
        }
    }
    assert(after@.armed =~= before@.with(entry).armed);
    assert(after@ =~= before@.with(entry));
    if let Some(at) = entry.deadline {
        let i = choose|i: int|
            0 <= i <= before.deadlines@.len() && #[trigger] before.deadlines@.insert(
                i,
                (at, order),
            ) == after.deadlines@ && (forall|k: int|
                0 <= k < i ==> fires_before(#[trigger] before.deadlines@[k], (at, order))) && (
            forall|k: int|
                i <= k < before.deadlines@.len() ==> fires_before(
                    (at, order),
                    #[trigger] before.deadlines@[k],
                ));
        assert forall|a: int, b: int| 0 <= a < b < after.deadlines@.len() implies fires_before(
            after.deadlines@[a],
            after.deadlines@[b],
        ) by {
            if a != i {
                assert(after.deadlines@[a] == before.deadlines@[if a < i { a } else { a - 1 }]);
            }
            if b != i {
                assert(after.deadlines@[b] == before.deadlines@[if b < i { b } else { b - 1 }]);
            }
        }
    }
    assert forall|pair: Armed| #[trigger] after@.armed.contains(pair) implies after@.entries.dom().contains(
        pair.1,
    ) && after@.entries[pair.1].deadline == Some(pair.0) by {
        if before@.armed.contains(pair) {
            assert(before@.entries.dom().contains(pair.1));
            assert(pair.1 != order);
        }
    }
    assert forall|a: u64, b: u64|
        #![trigger after@.entries[a], after@.entries[b]]
        after@.entries.dom().contains(a) && after@.entries.dom().contains(b)
            && after@.entries[a].key == after@.entries[b].key implies a == b by {
        if a != order {
            assert(is_at(before.keyed@, place_of(before.keyed@, a), a));
            assert(before@.entries[a] == after@.entries[a]);
        }
        if b != order {
            assert(is_at(before.keyed@, place_of(before.keyed@, b), b));
            assert(before@.entries[b] == after@.entries[b]);
        }
    }
    assert forall|o: u64|
        #![trigger after@.entries[o]]
        after@.entries.dom().contains(o) implies {
        &&& after@.entries[o].arming_order.0 == o
        &&& o <= after@.minted
        &&& after@.entries[o].period is Some <==> after@.entries[o].message is Interval
    } by {
        if o != order {
            assert(before@.entries[o] == after@.entries[o]);
        }
    }
    assert forall|o: u64| #[trigger]
        is_filed(after.keyed@, o) == is_indexed(after.armings@, o) by {
        assert(is_filed(after.keyed@, o) == after@.entries.dom().contains(o));
        assert(is_filed(before.keyed@, o) == is_indexed(before.armings@, o));
        if is_indexed(before.armings@, o) {
            let k = choose|k: int| indexes(before.armings@, k, o);
            assert(indexes(before.armings@, k, o));
            assert(indexes(after.armings@, k, o));
        }
        if is_indexed(after.armings@, o) {
            let k = choose|k: int| indexes(after.armings@, k, o);
            assert(indexes(after.armings@, k, o));
            if k < before.armings@.len() {
                assert(indexes(before.armings@, k, o));
            }
        }
        if o == order {
            assert(indexes(after.armings@, before.armings@.len() as int, o));
        }
    }
    assert forall|k: int| 0 <= k < after.armings@.len() implies (#[trigger] after.armings@[k]).1
        == after.keyed@[place_of(after.keyed@, after.armings@[k].0)].key.hash by {
        let o = after.armings@[k].0;
        assert(indexes(after.armings@, k, o));
        assert(is_filed(after.keyed@, o));
        let p = place_of(after.keyed@, o);
        assert(is_at(after.keyed@, p, o));
        lemma_place(after.keyed@, p);
        assert(after.keyed@[p] == after@.entries[o]);
        if k < before.armings@.len() {
            assert(before.armings@[k] == after.armings@[k]);
            assert(indexes(before.armings@, k, o));
            assert(is_filed(before.keyed@, o));
            assert(is_at(before.keyed@, place_of(before.keyed@, o), o));
            assert(before@.entries[o] == before.keyed@[place_of(before.keyed@, o)]);
        }
    }
}

/// Once a timer is gone from every index, the indexes agree again.
proof fn lemma_unlinked<M>(before: TimerStore<M>, after: TimerStore<M>, entry: TimerEntry<M>)
    requires
        before.linked(),
        exists|place: int|
            0 <= place < before.keyed@.len() && #[trigger] before.keyed@[place] == entry
                && after.keyed@ == before.keyed@.remove(place),
        after.arming_orders == before.arming_orders,
        exists|i: int|
            #[trigger] indexes(before.armings@, i, entry.arming_order.0) && after.armings@
                == before.armings@.remove(i),
        after.deadlines@ == before.deadlines@ && !(entry.deadline matches Some(at)
            && before.deadlines@.contains((at, entry.arming_order.0))) || exists|i: int|
            0 <= i < before.deadlines@.len() && entry.deadline == Some(before.deadlines@[i].0)
                && (#[trigger] before.deadlines@[i]).1 == entry.arming_order.0 && after.deadlines@
                == before.deadlines@.remove(i),
    ensures
        after.linked(),
        before.wf() ==> after.wf(),
        after@ == before@.without(entry.arming_order.0),
{
    let order = entry.arming_order.0;
    let place = choose|place: int|
        0 <= place < before.keyed@.len() && #[trigger] before.keyed@[place] == entry
            && after.keyed@ == before.keyed@.remove(place);
    let spot = choose|i: int|
        #[trigger] indexes(before.armings@, i, order) && after.armings@ == before.armings@.remove(i);
    lemma_place(before.keyed@, place);
    lemma_unfile(before.keyed@, place);
    assert(after@.entries =~= before@.entries.remove(order));
    // The armed deadlines lose exactly those of the timer.
    assert forall|pair: Armed| #[trigger]
        after@.armed.contains(pair) == before@.without(order).armed.contains(pair) by {
        if before.deadlines@.contains(pair) {
            assert(before@.armed.contains(pair));
            assert(before@.entries[pair.1].deadline == Some(pair.0));
        }
        if after.deadlines@ != before.deadlines@ {
            let i = choose|i: int|
                0 <= i < before.deadlines@.len() && entry.deadline == Some(before.deadlines@[i].0)
                    && (#[trigger] before.deadlines@[i]).1 == order && after.deadlines@
                    == before.deadlines@.remove(i);
            if after.deadlines@.contains(pair) {
                let k = choose|k: int|
                    0 <= k < after.deadlines@.len() && after.deadlines@[k] == pair;
                let x = if k < i { k } else { k + 1 };
                assert(after.deadlines@[k] == before.deadlines@[x]);
                assert(before.deadlines@.contains(pair));
                assert(before@.armed.contains(pair));
                if pair.1 == order {
                    assert(before@.entries[order].deadline == Some(pair.0));
                    assert(before.deadlines@[i] == pair);
                    if i < x {
                        assert(fires_before(before.deadlines@[i], before.deadlines@[x]));
                    } else {
                        assert(fires_before(before.deadlines@[x], before.deadlines@[i]));
                    }
                }
            }
            if before.deadlines@.contains(pair) && pair.1 != order {
                let k = choose|k: int|
                    0 <= k < before.deadlines@.len() && before.deadlines@[k] == pair;
                let x = if k < i { k } else { k - 1 };
                assert(after.deadlines@[x] == pair);
            }
        } else if before.deadlines@.contains(pair) && pair.1 == order {
            assert(before@.entries[order].deadline == Some(pair.0));
            assert(entry.deadline == Some(pair.0));
        }
    }
    assert(after@.armed =~= before@.without(order).armed);
    assert(after@ =~= before@.without(order));
    assert(soonest_first(after.deadlines@));
    // The arming index still lists exactly the filed timers.
    assert forall|o: u64| #[trigger]
        is_filed(after.keyed@, o) == is_indexed(after.armings@, o) by {
        assert(is_filed(after.keyed@, o) == after@.entries.dom().contains(o));
        assert(is_filed(before.keyed@, o) == is_indexed(before.armings@, o));
        if is_indexed(after.armings@, o) {
            let k = choose|k: int| indexes(after.armings@, k, o);
            assert(indexes(after.armings@, k, o));
            let x = if k < spot { k } else { k + 1 };
            assert(after.armings@[k] == before.armings@[x]);
            assert(indexes(before.armings@, x, o));
            assert(o != order) by {
                if k < spot {
                    assert(before.armings@[x].0 < before.armings@[spot].0);
                } else {
                    assert(before.armings@[spot].0 < before.armings@[x].0);
                }
            }
        }
        if is_indexed(before.armings@, o) && o != order {
            let k = choose|k: int| indexes(before.armings@, k, o);
            assert(indexes(before.armings@, k, o));
            let x = if k < spot { k } else { k - 1 };
            assert(after.armings@[x] == before.armings@[k]);
            assert(indexes(after.armings@, x, o));
        }
    }
    assert forall|k: int| 0 <= k < after.armings@.len() && before.wf() implies (
    #[trigger] after.armings@[k]).1 == after.keyed@[place_of(
        after.keyed@,
        after.armings@[k].0,
    )].key.hash by {
        let x = if k < spot { k } else { k + 1 };
        assert(after.armings@[k] == before.armings@[x]);
        let o = after.armings@[k].0;
        assert(indexes(after.armings@, k, o));
        assert(is_filed(after.keyed@, o));
        assert(is_at(after.keyed@, place_of(after.keyed@, o), o));
        let p = place_of(after.keyed@, o);
        let q = if p < place { p } else { p + 1 };
        assert(after.keyed@[p] == before.keyed@[q]);
        lemma_place(before.keyed@, q);
    }
}

impl<M> TimerModel<M> {
    /// Whether the deadlines still to fire can be listed, soonest first.
    pub open spec fn listed(self) -> bool {
        exists|pairs: Seq<Armed>| #[trigger] in_firing_order(pairs, self.armed)
    }
}

/// The deadlines a store keeps list what it has armed.
pub proof fn lemma_store_is_listed<M>(store: TimerStore<M>)
    requires
        store.linked(),
    ensures
        store@.listed(),
{
    assert(in_firing_order(store.deadlines@, store@.armed));
}

/// The deadlines of a list that are due at `now` can be listed too.
proof fn lemma_due_listed(pairs: Seq<Armed>, now: Instant) -> (due: Seq<Armed>)
    requires
        soonest_first(pairs),
    ensures
        soonest_first(due),
        forall|pair: Armed| #[trigger]
            due.contains(pair) <==> pairs.contains(pair) && pair.0@ <= now@,
    decreases pairs.len(),
{
    if pairs.len() == 0 {
        pairs
    } else if pairs.last().0@ <= now@ {
        assert forall|pair: Armed| #[trigger] pairs.contains(pair) implies pair.0@ <= now@ by {
            let i = choose|i: int| 0 <= i < pairs.len() && pairs[i] == pair;
            if i < pairs.len() - 1 {
                assert(fires_before(pairs[i], pairs[pairs.len() - 1]));
            }
        }
        pairs
    } else {
        let fewer = pairs.drop_last();
        assert forall|i: int, j: int| 0 <= i < j < fewer.len() implies fires_before(
            fewer[i],
            fewer[j],
        ) by {
            assert(fires_before(pairs[i], pairs[j]));
        }
        let due = lemma_due_listed(fewer, now);
        assert forall|pair: Armed| #[trigger]
            due.contains(pair) == (pairs.contains(pair) && pair.0@ <= now@) by {
            if due.contains(pair) {
                let i = choose|i: int| 0 <= i < fewer.len() && fewer[i] == pair;
                assert(pairs[i] == pair);
            }
            if pairs.contains(pair) && pair.0@ <= now@ {
                let i = choose|i: int| 0 <= i < pairs.len() && pairs[i] == pair;
                assert(i < pairs.len() - 1);
                assert(fewer[i] == pair);
            }
        }
        due
    }
}

/// A fire takes exactly the due deadlines, each timer once and soonest first,
/// older armings first among equal deadlines; each of those timers is still
/// installed and has no deadline left to fire.
pub proof fn law_a_fire_takes_each_due_timer_once<M>(timers: TimerModel<M>, now: Instant)
    requires
        timers.wf(),
        timers.listed(),
    ensures
        ({
            let orders = timers.due_orders(now);
            &&& timers.lists_due(now, orders)
            &&& orders.len() == 0 <==> forall|pair: Armed| #[trigger]
                timers.armed.contains(pair) ==> pair.0@ > now@
            &&& forall|i: int|
                0 <= i < orders.len() ==> timers.after_due(now).fired((#[trigger] orders[i]).0)
                    && orders[i].0 <= timers.minted
        }),
{
    let listed = choose|pairs: Seq<Armed>| #[trigger] in_firing_order(pairs, timers.armed);
    let found = lemma_due_listed(listed, now);
    assert(in_firing_order(found, timers.due(now)));
    let pairs = choose|pairs: Seq<Armed>| in_firing_order(pairs, timers.due(now));
    let orders = timers.due_orders(now);
    assert(orders.len() == pairs.len());
    assert forall|i: int| 0 <= i < orders.len() implies {
        &&& timers.entries.dom().contains((#[trigger] orders[i]).0)
        &&& timers.entries[orders[i].0].deadline == Some(pairs[i].0)
        &&& timers.armed.contains((timers.entries[orders[i].0].deadline->Some_0, orders[i].0))
        &&& pairs[i].0@ <= now@
        &&& timers.after_due(now).fired(orders[i].0)
        &&& orders[i].0 <= timers.minted
    } by {
        assert(pairs.contains(pairs[i]));
        assert(timers.due(now).contains(pairs[i]));
        assert(timers.armed.contains(pairs[i]));
        assert(orders[i] == ArmingOrder(pairs[i].1));
        assert(pairs[i] == (pairs[i].0, pairs[i].1));
        assert forall|pair: Armed| #[trigger]
            timers.after_due(now).armed.contains(pair) implies pair.1 != orders[i].0 by {
            assert(timers.armed.contains(pair));
        }
    }
    assert forall|i: int, j: int| 0 <= i < j < orders.len() implies #[trigger] orders[i]
        != #[trigger] orders[j] && fires_before(
        (timers.entries[orders[i].0].deadline->Some_0, orders[i].0),
        (timers.entries[orders[j].0].deadline->Some_0, orders[j].0),
    ) by {
        assert(fires_before(pairs[i], pairs[j]));
    }
    assert forall|pair: Armed| #[trigger]
        timers.armed.contains(pair) && pair.0@ <= now@ implies orders.contains(
        ArmingOrder(pair.1),
    ) by {
        assert(timers.due(now).contains(pair));
        assert(pairs.contains(pair));
        let i = choose|i: int| 0 <= i < pairs.len() && pairs[i] == pair;
        assert(orders[i] == ArmingOrder(pair.1));
    }
    if orders.len() == 0 {
        assert forall|pair: Armed| #[trigger] timers.armed.contains(pair) implies pair.0@
            > now@ by {
            if pair.0@ <= now@ {
                assert(orders.contains(ArmingOrder(pair.1)));
            }
        }
    } else {
        assert(pairs.contains(pairs[0]));
        assert(timers.due(now).contains(pairs[0]));
    }
}

/// Clearing a key retracts its timer for good: neither a captured arming of it
/// delivers anything, nor does a later timer take its arming order.
pub proof fn law_a_cleared_timer_is_never_delivered<M>(
    timers: TimerModel<M>,
    key: TimerKey,
    order: u64,
    replacement: TimerEntry<M>,
    now: Instant,
)
    requires
        timers.wf(),
        timers.keyed_as(order, key),
        replacement.arming_order.0 == timers.minted + 1,
    ensures
        !timers.cleared(key).entries.dom().contains(order),
        timers.cleared(key).fired(order),
        timers.cleared(key).delivered(order, now) == timers.cleared(key),
        !timers.cleared(key).with(replacement).entries.dom().contains(order),
        timers.cleared(key).with(replacement).delivered(order, now) == timers.cleared(key).with(
            replacement,
        ),
{
    let named = timers.order_of(key);
    assert(timers.keyed_as(named, key));
    assert(timers.entries[named].key == timers.entries[order].key);
    assert(named == order);
    assert(timers.entries[order].arming_order.0 == order);
}

/// Arming a key leaves one timer under it, and every other key's as it was.
pub proof fn law_arming_replaces_only_its_own_key<M>(
    timers: TimerModel<M>,
    replacement: TimerEntry<M>,
    other: u64,
)
    requires
        timers.wf(),
        replacement.arming_order.0 == timers.minted + 1,
        timers.entries.dom().contains(other),
        timers.entries[other].key != replacement.key,
    ensures
        ({
            let armed = timers.cleared(replacement.key).with(replacement);
            &&& armed.keyed_as(replacement.arming_order.0, replacement.key)
            &&& forall|order: u64| #[trigger]
                armed.keyed_as(order, replacement.key) ==> order == replacement.arming_order.0
            &&& armed.entries.dom().contains(other)
            &&& armed.entries[other] == timers.entries[other]
            &&& forall|at: Instant| #[trigger]
                armed.armed.contains((at, other)) <==> timers.armed.contains((at, other))
        }),
{
    let key = replacement.key;
    let cleared = timers.cleared(key);
    let armed = cleared.with(replacement);
    assert(timers.entries[other].arming_order.0 == other);
    if timers.has_key(key) {
        assert(timers.keyed_as(timers.order_of(key), key));
    }
    assert forall|order: u64| #[trigger] armed.keyed_as(order, key) implies order
        == replacement.arming_order.0 by {
        if order != replacement.arming_order.0 {
            assert(timers.entries.dom().contains(order));
            assert(timers.keyed_as(order, key));
            let named = timers.order_of(key);
            assert(timers.keyed_as(named, key));
            assert(timers.entries[named].key == timers.entries[order].key);
        }
    }
}

/// An interval fires again one period after its delivery, never earlier, and
/// stays installed; one whose next deadline overflows the clock goes dormant.
pub proof fn law_an_interval_stays_installed<M>(timers: TimerModel<M>, order: u64, now: Instant)
    requires
        timers.wf(),
        timers.entries.dom().contains(order),
        timers.entries[order].message is Interval,
        timers.fired(order),
    ensures
        ({
            let after = timers.delivered(order, now);
            let next = now.later(timers.entries[order].period->Some_0);
            &&& after.entries.dom().contains(order)
            &&& after.entries[order].deadline == next
            &&& next matches Some(at) ==> after.armed.contains((at, order)) && at@ == now@
                + timers.entries[order].period->Some_0@
            &&& next is None ==> after.fired(order)
        }),
{
    now.lemma_later(timers.entries[order].period->Some_0);

    assert(timers.entries[order].period is Some);
}

} // verus!
