//! Child ids, memberships and incarnations.

use vstd::prelude::*;

verus! {

/// A child's name within its scope.
#[derive(Debug, Hash, PartialEq, Eq)]
pub struct ChildId {
    text: String,
}

impl ChildId {
    /// The name's characters.
    pub closed spec fn view(&self) -> Seq<char> {
        self.text@
    }

    /// Wraps a name.
    pub fn new(text: String) -> (id: ChildId)
        ensures
            id@ == text@,
    {
        ChildId { text }
    }

    /// The name itself.
    pub fn as_str(&self) -> (text: &str)
        ensures
            text@ == self@,
    {
        self.text.as_str()
    }

    /// Whether two ids name the same child.
    pub fn same(&self, other: &ChildId) -> (equal: bool)
        ensures
            equal == (self@ == other@),
    {
        self.text == other.text
    }

    /// Whether the name has no characters.
    pub fn is_empty(&self) -> (empty: bool)
        ensures
            empty == (self@.len() == 0),
    {
        self.text.as_str().is_empty()
    }
}

impl Clone for ChildId {
    fn clone(&self) -> (copy: ChildId)
        ensures
            copy == *self,
    {
        ChildId { text: self.text.clone() }
    }
}

/// A copy of a path of ids.
pub fn clone_path(path: &Vec<ChildId>) -> (copy: Vec<ChildId>)
    ensures
        copy@ == path@,
{
    let copy = path.clone();
    proof {
        assert forall|i: int| 0 <= i < copy@.len() implies copy@[i] == path@[i] by {
            assert(cloned(path@[i], copy@[i]));
        }
        assert(copy@ =~= path@);
    }
    copy
}

/// One residency of a child id: a lineage and its generation within it.
#[derive(Clone, Copy, Debug, PartialEq, Eq, Structural, Hash)]
pub struct Membership {
    /// Line of descent; generations are ordered only within one lineage.
    pub lineage: u64,
    /// Position in the lineage.
    pub generation: u64,
}

impl Membership {
    /// Whether `self` is a later generation of `other`'s lineage.
    pub open spec fn succeeds(self, other: Membership) -> bool {
        self.lineage == other.lineage && self.generation > other.generation
    }

    /// Whether `self` is a later generation of `other`'s lineage.
    pub fn supersedes(self, other: Membership) -> (later: bool)
        ensures
            later == self.succeeds(other),
    {
        self.lineage == other.lineage && self.generation > other.generation
    }
}

/// One run of a membership.
#[derive(Clone, Copy, Debug, PartialEq, Eq, Structural, Hash)]
pub struct Incarnation {
    /// The membership that runs.
    pub membership: Membership,
    /// Position among that membership's runs.
    pub ordinal: u64,
}

impl Incarnation {
    /// Whether `self` is a later run of the same membership, or a run of a
    /// later generation of its lineage.
    pub open spec fn succeeds(self, other: Incarnation) -> bool {
        self.membership.succeeds(other.membership) || (self.membership == other.membership
            && self.ordinal > other.ordinal)
    }

    /// Whether `self` is a later run of the same membership, or a run of a
    /// later generation of its lineage.
    pub fn supersedes(self, other: Incarnation) -> (later: bool)
        ensures
            later == self.succeeds(other),
    {
        self.membership.supersedes(other.membership) || (self.membership == other.membership
            && self.ordinal > other.ordinal)
    }
}

/// Supersession of memberships is a strict order: nothing supersedes itself,
/// no two memberships supersede each other, and it is transitive.
pub proof fn law_membership_supersession_is_a_strict_order(
    a: Membership,
    b: Membership,
    c: Membership,
)
    ensures
        !a.succeeds(a),
        a.succeeds(b) ==> !b.succeeds(a),
        a.succeeds(b) && b.succeeds(c) ==> a.succeeds(c),
{
}

/// Supersession of incarnations is a strict order, and never relates two
/// lineages.
pub proof fn law_incarnation_supersession_is_a_strict_order(
    a: Incarnation,
    b: Incarnation,
    c: Incarnation,
)
    ensures
        !a.succeeds(a),
        a.succeeds(b) ==> !b.succeeds(a),
        a.succeeds(b) && b.succeeds(c) ==> a.succeeds(c),
        a.succeeds(b) ==> a.membership.lineage == b.membership.lineage,
{
}

/// A counter whose values strictly increase and are never reused.
#[derive(Clone, Copy, Debug, PartialEq, Eq, Structural)]
pub struct MonotonicCounter {
    last: u64,
}

impl MonotonicCounter {
    /// The last value minted; zero before the first.
    pub closed spec fn view(&self) -> u64 {
        self.last
    }

    /// A counter that has minted nothing.
    pub fn new() -> (counter: MonotonicCounter)
        ensures
            counter@ == 0,
    {
        MonotonicCounter { last: 0 }
    }

    /// Mints the next value.
    pub fn mint(&mut self) -> (value: u64)
        requires
            old(self)@ < u64::MAX,
        ensures
            value == old(self)@ + 1,
            final(self)@ == value,
    {
        self.last = self.last + 1;
        self.last
    }

    /// The last value minted.
    pub fn load(&self) -> (value: u64)
        ensures
            value == self@,
    {
        self.last
    }
}

/// A counter that stops minting for good once its range is spent.
#[derive(Clone, Copy, Debug, PartialEq, Eq, Structural)]
pub struct PoisonedCounter {
    last: u64,
}

impl PoisonedCounter {
    /// The last value minted; zero before the first.
    pub closed spec fn view(&self) -> u64 {
        self.last
    }

    /// A counter that has minted nothing.
    pub fn new() -> (counter: PoisonedCounter)
        ensures
            counter@ == 0,
    {
        PoisonedCounter { last: 0 }
    }

    /// A counter with a single value left.
    pub fn near_exhaustion() -> (counter: PoisonedCounter)
        ensures
            counter@ == u64::MAX - 1,
    {
        PoisonedCounter { last: u64::MAX - 1 }
    }

    /// The last value minted.
    pub fn load(&self) -> (value: u64)
        ensures
            value == self@,
    {
        self.last
    }

    /// Mints the next value, or `None` once the range is spent.
    pub fn mint(&mut self) -> (value: Option<u64>)
        ensures
            old(self)@ < u64::MAX ==> value == Some((old(self)@ + 1) as u64) && final(self)@ == old(
                self,
            )@ + 1,
            old(self)@ == u64::MAX ==> value is None && final(self)@ == old(self)@,
    {
        if self.last < u64::MAX {
            self.last = self.last + 1;
            Some(self.last)
        } else {
            None
        }
    }
}

/// Gives out lineages, each once.
#[derive(Clone, Copy, Debug, PartialEq, Eq, Structural)]
pub struct LineageSource {
    last: u64,
}

impl LineageSource {
    /// The last lineage given out; zero before the first.
    pub closed spec fn view(&self) -> u64 {
        self.last
    }

    /// A source that has given out nothing.
    pub fn new() -> (source: LineageSource)
        ensures
            source@ == 0,
    {
        LineageSource { last: 0 }
    }

    /// Gives out a lineage, or `None` once all were.
    pub fn mint(&mut self) -> (lineage: Option<u64>)
        ensures
            old(self)@ < u64::MAX ==> lineage == Some((old(self)@ + 1) as u64) && final(self)@
                == old(self)@ + 1,
            old(self)@ == u64::MAX ==> lineage is None && final(self)@ == old(self)@,
    {
        if self.last < u64::MAX {
            self.last = self.last + 1;
            Some(self.last)
        } else {
            None
        }
    }
}

/// One child id's line of memberships within a scope.
#[derive(Debug)]
pub struct IdentityLine {
    /// The child id.
    pub id: ChildId,
    /// Its newest membership.
    pub newest: Membership,
}

/// How a membership made elsewhere was fitted into a scope.
#[derive(Clone, Copy, Debug, PartialEq, Eq, Structural)]
pub enum MembershipReconciliation {
    /// The id was free: the membership itself was taken on.
    Adopted,
    /// The id has a line here: this is its next membership.
    Minted(Membership),
    /// The id's line has no membership left.
    Exhausted,
}

/// The newest membership of every child id a scope knows.
#[derive(Debug)]
pub struct ScopeIdentity {
    lines: Vec<IdentityLine>,
}

/// The newest memberships by id.
pub type Lines = Map<Seq<char>, Membership>;

/// The next membership of a line, unless its generations are spent.
pub open spec fn successor(newest: Membership) -> Option<Membership> {
    if newest.generation < u64::MAX {
        Some(Membership { generation: (newest.generation + 1) as u64, ..newest })
    } else {
        None
    }
}

/// What minting for `id` makes: the next of its line, or the first of a fresh
/// one.
pub open spec fn minted(lines: Lines, id: Seq<char>, lineage: u64) -> Option<Membership> {
    if lines.dom().contains(id) {
        successor(lines[id])
    } else if lineage < u64::MAX {
        Some(Membership { lineage: (lineage + 1) as u64, generation: 0 })
    } else {
        None
    }
}

/// What fitting `offered` in for `id` makes.
pub open spec fn fitted(lines: Lines, id: Seq<char>, offered: Membership) -> Option<Membership> {
    if lines.dom().contains(id) {
        successor(lines[id])
    } else {
        Some(offered)
    }
}

/// The lines without `id`'s, if `membership` is still its newest.
pub open spec fn evicted(lines: Lines, id: Seq<char>, membership: Membership) -> Lines {
    if lines.dom().contains(id) && lines[id] == membership {
        lines.remove(id)
    } else {
        lines
    }
}

impl ScopeIdentity {
    /// Whether line `i` is that of `id`.
    spec fn is_at(self, i: int, id: Seq<char>) -> bool {
        0 <= i < self.lines@.len() && self.lines@[i].id@ == id
    }

    /// Whether there is a line for `id`.
    spec fn has(self, id: Seq<char>) -> bool {
        exists|i: int| self.is_at(i, id)
    }

    /// The place of the line for `id`.
    spec fn place(self, id: Seq<char>) -> int {
        choose|i: int| self.is_at(i, id)
    }

    /// The newest memberships by id.
    pub closed spec fn view(&self) -> Lines {
        Map::new(
            |id: Seq<char>| self.has(id),
            |id: Seq<char>| self.lines@[self.place(id)].newest,
        )
    }

    #[verifier::type_invariant]
    spec fn each_id_once(self) -> bool {
        forall|i: int, j: int|
            0 <= i < j < self.lines@.len() ==> (#[trigger] self.lines@[i]).id@ != (
            #[trigger] self.lines@[j]).id@
    }

    /// A scope that knows no child.
    pub fn new() -> (identity: ScopeIdentity)
        ensures
            identity@ == Lines::empty(),
    {
        let identity = ScopeIdentity { lines: Vec::new() };
        proof {
            assert(identity@ =~= Lines::empty());
        }
        identity
    }

    /// A scope that knows one child, whose line has one membership left.
    pub fn near_exhaustion(id: ChildId, lineage: u64) -> (identity: ScopeIdentity)
        ensures
            identity@ == Lines::empty().insert(
                id@,
                (Membership { lineage, generation: (u64::MAX - 1) as u64 }),
            ),
    {
        let mut lines: Vec<IdentityLine> = Vec::new();
        lines.push(IdentityLine { id, newest: Membership { lineage, generation: u64::MAX - 1 } });
        let identity = ScopeIdentity { lines };
        proof {
            assert(identity.is_at(0, id@));
            assert forall|other: Seq<char>| #[trigger] identity.has(other) == (other == id@) by {
                if identity.has(other) {
                    assert(identity.is_at(identity.place(other), other));
                }
            }
            assert(identity.is_at(identity.place(id@), id@));
            assert(identity@ =~= Lines::empty().insert(
                id@,
                Membership { lineage, generation: (u64::MAX - 1) as u64 },
            ));
        }
        identity
    }

    /// The place of the line for `id`.
    fn locate(&self, id: &ChildId) -> (found: Option<usize>)
        ensures
            found is Some <==> self.has(id@),
            found matches Some(i) ==> self.is_at(i as int, id@) && i == self.place(id@),
    {
        proof {
            use_type_invariant(self);
        }
        let mut index: usize = 0;
        while index < self.lines.len()
            invariant
                index <= self.lines@.len(),
                self.each_id_once(),
                forall|i: int| 0 <= i < index ==> (#[trigger] self.lines@[i]).id@ != id@,
            decreases self.lines@.len() - index,
        {
            if self.lines[index].id.same(id) {
                proof {
                    assert(self.is_at(index as int, id@));
                    let place = self.place(id@);
                    assert(self.is_at(place, id@));
                    if place < index {
                        assert(self.lines@[place].id@ != id@);
                    } else if place > index {
                        assert(self.lines@[index as int].id@ != self.lines@[place].id@);
                    }
                }
                return Some(index);
            }
            index = index + 1;
        }
        proof {
            if self.has(id@) {
                assert(self.is_at(self.place(id@), id@));
            }
        }
        None
    }

    /// Advances the line at `place` to its next membership.
    fn advance(&mut self, place: usize, Ghost(id): Ghost<Seq<char>>) -> (next: Option<Membership>)
        requires
            old(self).is_at(place as int, id),
            old(self).has(id),
            place == old(self).place(id),
        ensures
            next == successor(old(self)@[id]),
            next is None ==> final(self)@ == old(self)@,
            next matches Some(membership) ==> final(self)@ == old(self)@.insert(id, membership),
    {
        proof {
            use_type_invariant(&*self);
        }
        let newest = self.lines[place].newest;
        if newest.generation == u64::MAX {
            return None;
        }
        let next = Membership { lineage: newest.lineage, generation: newest.generation + 1 };
        let mut lines: Vec<IdentityLine> = Vec::new();
        core::mem::swap(&mut lines, &mut self.lines);
        lines[place].newest = next;
        self.lines = lines;
        proof {
            lemma_line_advanced(*old(self), *self, place as int, id, next);
        }
        Some(next)
    }

    /// Mints a membership for `id`: the next of its line, or the first of a
    /// fresh one.
    pub fn mint_membership(&mut self, id: &ChildId, lineages: &mut LineageSource) -> (membership:
        Option<Membership>)
        ensures
            membership == minted(old(self)@, id@, old(lineages)@),
            final(self)@ == match membership {
                Some(minted) => old(self)@.insert(id@, minted),
                None => old(self)@,
            },
            final(lineages)@ == if old(self)@.dom().contains(id@) || membership is None {
                old(lineages)@
            } else {
                (old(lineages)@ + 1) as u64
            },
    {
        match self.locate(id) {
            Some(place) => self.advance(place, Ghost(id@)),
            None => match lineages.mint() {
                Some(lineage) => {
                    let membership = Membership { lineage, generation: 0 };
                    self.begin_line(id, membership);
                    Some(membership)
                },
                None => None,
            },
        }
    }

    /// Begins a line for an id that has none.
    fn begin_line(&mut self, id: &ChildId, membership: Membership)
        requires
            !old(self).has(id@),
        ensures
            final(self)@ == old(self)@.insert(id@, membership),
    {
        proof {
            use_type_invariant(&*self);
        }
        let mut lines: Vec<IdentityLine> = Vec::new();
        core::mem::swap(&mut lines, &mut self.lines);
        lines.push(IdentityLine { id: id.clone(), newest: membership });
        proof {
            let count = old(self).lines@.len() as int;
            assert forall|i: int, j: int| 0 <= i < j < lines@.len() implies (
            #[trigger] lines@[i]).id@ != (#[trigger] lines@[j]).id@ by {
                assert(old(self).lines@[i] == lines@[i]);
                if j == count {
                    assert(!old(self).is_at(i, id@));
                }
            }
        }
        self.lines = lines;
        proof {
            lemma_line_begun(*old(self), *self, id@, membership);
        }
    }

    /// Fits in a membership made elsewhere: an id that is free takes it on, one
    /// that has a line here gets the next of that.
    pub fn adopt_or_mint_membership(&mut self, id: &ChildId, offered: Membership) -> (fit:
        MembershipReconciliation)
        ensures
            match fit {
                MembershipReconciliation::Adopted => {
                    &&& !old(self)@.dom().contains(id@)
                    &&& final(self)@ == old(self)@.insert(id@, offered)
                },
                MembershipReconciliation::Minted(membership) => {
                    &&& old(self)@.dom().contains(id@)
                    &&& successor(old(self)@[id@]) == Some(membership)
                    &&& final(self)@ == old(self)@.insert(id@, membership)
                },
                MembershipReconciliation::Exhausted => {
                    &&& old(self)@.dom().contains(id@)
                    &&& successor(old(self)@[id@]) is None
                    &&& final(self)@ == old(self)@
                },
            },
    {
        match self.locate(id) {
            Some(place) => match self.advance(place, Ghost(id@)) {
                Some(membership) => MembershipReconciliation::Minted(membership),
                None => MembershipReconciliation::Exhausted,
            },
            None => {
                self.begin_line(id, offered);
                MembershipReconciliation::Adopted
            },
        }
    }

    /// Forgets `id`'s line, if `membership` is still its newest: a later child
    /// of that id begins a line of its own.
    pub fn evict(&mut self, id: &ChildId, membership: Membership)
        ensures
            final(self)@ == evicted(old(self)@, id@, membership),
    {
        let place: usize = match self.locate(id) {
            Some(place) => place,
            None => {
                return;
            },
        };
        if self.lines[place].newest != membership {
            return;
        }
        proof {
            use_type_invariant(&*self);
        }
        let mut lines: Vec<IdentityLine> = Vec::new();
        core::mem::swap(&mut lines, &mut self.lines);
        let _ = lines.remove(place);
        proof {
            assert forall|i: int, j: int| 0 <= i < j < lines@.len() implies (
            #[trigger] lines@[i]).id@ != (#[trigger] lines@[j]).id@ by {
                let a = if i < place {
                    i
                } else {
                    i + 1
                };
                let b = if j < place {
                    j
                } else {
                    j + 1
                };
                assert(lines@[i] == old(self).lines@[a]);
                assert(lines@[j] == old(self).lines@[b]);
            }
        }
        self.lines = lines;
        proof {
            lemma_line_ended(*old(self), *self, place as int, id@);
        }
    }
}

/// Advancing a line changes that line only.
proof fn lemma_line_advanced(
    before: ScopeIdentity,
    after: ScopeIdentity,
    place: int,
    id: Seq<char>,
    next: Membership,
)
    requires
        before.each_id_once(),
        after.each_id_once(),
        before.is_at(place, id),
        place == before.place(id),
        after.lines@ == before.lines@.update(
            place,
            (IdentityLine { newest: next, ..before.lines@[place] }),
        ),
    ensures
        after@ == before@.insert(id, next),
{
    assert forall|other: Seq<char>, i: int| #[trigger] after.is_at(i, other) == before.is_at(
        i,
        other,
    ) by {}
    assert forall|other: Seq<char>| #[trigger] after.has(other) == before.has(other) by {
        if after.has(other) {
            assert(before.is_at(after.place(other), other));
        }
        if before.has(other) {
            assert(after.is_at(before.place(other), other));
        }
    }
    assert forall|other: Seq<char>| before.has(other) implies #[trigger] after.place(other)
        == before.place(other) by {
        assert(after.has(other));
        let a = after.place(other);
        let b = before.place(other);
        assert(after.is_at(a, other));
        assert(before.is_at(b, other));
        assert(before.is_at(a, other));
        if a < b {
            assert(before.lines@[a].id@ != before.lines@[b].id@);
        } else if b < a {
            assert(before.lines@[b].id@ != before.lines@[a].id@);
        }
    }
    assert forall|other: Seq<char>| before.has(other) && other != id implies #[trigger] after@[other]
        == before@[other] by {
        assert(after.place(other) == before.place(other));
        assert(before.is_at(before.place(other), other));
        assert(before.place(other) != place);
    }
    assert(after.has(id));
    assert(after.place(id) == place);
    assert(after@ =~= before@.insert(id, next));
}

/// Beginning a line adds that line only.
proof fn lemma_line_begun(
    before: ScopeIdentity,
    after: ScopeIdentity,
    id: Seq<char>,
    membership: Membership,
)
    requires
        before.each_id_once(),
        after.each_id_once(),
        !before.has(id),
        after.lines@.len() == before.lines@.len() + 1,
        after.lines@.drop_last() =~= before.lines@,
        after.lines@.last().id@ == id,
        after.lines@.last().newest == membership,
    ensures
        after@ == before@.insert(id, membership),
{
    let count = before.lines@.len() as int;
    assert forall|i: int| 0 <= i < count implies after.lines@[i] == #[trigger] before.lines@[i] by {
        assert(after.lines@.drop_last()[i] == before.lines@[i]);
    }
    assert(after.is_at(count, id));
    assert forall|other: Seq<char>| #[trigger] after.has(other) == (before.has(other) || other
        == id) by {
        if after.has(other) {
            let i = after.place(other);
            assert(after.is_at(i, other));
            if i < count {
                assert(before.is_at(i, other));
            }
        }
        if before.has(other) {
            assert(after.is_at(before.place(other), other)) by {
                assert(before.is_at(before.place(other), other));
            }
        }
    }
    assert forall|other: Seq<char>| before.has(other) implies #[trigger] after@[other]
        == before@[other] by {
        assert(after.has(other));
        let a = after.place(other);
        let b = before.place(other);
        assert(after.is_at(a, other));
        assert(before.is_at(b, other));
        assert(after.is_at(b, other));
        if a < b {
            assert(after.lines@[a].id@ != after.lines@[b].id@);
        } else if b < a {
            assert(after.lines@[b].id@ != after.lines@[a].id@);
        }
    }
    let place = after.place(id);
    assert(after.is_at(place, id));
    if place < count {
        assert(before.is_at(place, id));
    }
    assert(after@ =~= before@.insert(id, membership));
}

/// Ending a line removes that line only.
proof fn lemma_line_ended(before: ScopeIdentity, after: ScopeIdentity, place: int, id: Seq<char>)
    requires
        before.each_id_once(),
        after.each_id_once(),
        before.is_at(place, id),
        place == before.place(id),
        after.lines@ == before.lines@.remove(place),
    ensures
        after@ == before@.remove(id),
{
    assert forall|other: Seq<char>| #[trigger] after.has(other) == (before.has(other) && other
        != id) by {
        if after.has(other) {
            let i = after.place(other);
            assert(after.is_at(i, other));
            let j = if i < place {
                i
            } else {
                i + 1
            };
            assert(after.lines@[i] == before.lines@[j]);
            assert(before.is_at(j, other));
            if other == id {
                if j < place {
                    assert(before.lines@[j].id@ != before.lines@[place].id@);
                } else {
                    assert(before.lines@[place].id@ != before.lines@[j].id@);
                }
            }
        }
        if before.has(other) && other != id {
            let j = before.place(other);
            assert(before.is_at(j, other));
            let i = if j < place {
                j
            } else {
                j - 1
            };
            assert(after.lines@[i] == before.lines@[j]);
            assert(after.is_at(i, other));
        }
    }
    assert forall|other: Seq<char>| after.has(other) implies #[trigger] after@[other]
        == before@[other] by {
        assert(before.has(other));
        let i = after.place(other);
        assert(after.is_at(i, other));
        let j = if i < place {
            i
        } else {
            i + 1
        };
        assert(after.lines@[i] == before.lines@[j]);
        assert(before.is_at(j, other));
        let b = before.place(other);
        assert(before.is_at(b, other));
        if j < b {
            assert(before.lines@[j].id@ != before.lines@[b].id@);
        } else if b < j {
            assert(before.lines@[b].id@ != before.lines@[j].id@);
        }
    }
    assert(after@ =~= before@.remove(id));
}

/// Within a scope a later membership of an id supersedes the earlier ones;
/// evicting the id breaks the line, and what is minted then is comparable to
/// none of them.
pub proof fn law_eviction_breaks_the_line(
    lines: Lines,
    id: Seq<char>,
    membership: Membership,
    lineage: u64,
)
    requires
        lines.dom().contains(id),
        lines[id] == membership,
        membership.lineage <= lineage < u64::MAX,
    ensures
        minted(lines, id, lineage) matches Some(next) ==> next.succeeds(membership),
        minted(evicted(lines, id, membership), id, lineage) matches Some(fresh)
            && !fresh.succeeds(membership) && !membership.succeeds(fresh),
        forall|offered: Membership|
            #![trigger fitted(evicted(lines, id, membership), id, offered)]
            fitted(evicted(lines, id, membership), id, offered) == Some(offered),
{
}

/// A membership supersedes exactly the earlier generations of its lineage; an
/// incarnation the earlier runs of its membership and every run of an earlier
/// generation.
pub proof fn law_what_a_later_generation_supersedes(
    lineage: u64,
    other_lineage: u64,
    generation: u64,
    other_generation: u64,
    ordinal: u64,
    other_ordinal: u64,
)
    ensures
        ({
            let membership = Membership { lineage, generation };
            let other = Membership { lineage: other_lineage, generation: other_generation };
            let run = Incarnation { membership, ordinal };
            let other_run = Incarnation { membership: other, ordinal: other_ordinal };
            &&& lineage != other_lineage ==> !membership.succeeds(other) && !run.succeeds(other_run)
            &&& lineage == other_lineage ==> {
                &&& membership.succeeds(other) <==> generation > other_generation
                &&& generation > other_generation ==> run.succeeds(other_run)
                &&& generation < other_generation ==> !run.succeeds(other_run)
                &&& generation == other_generation ==> (run.succeeds(other_run) <==> ordinal
                    > other_ordinal)
            }
        }),
{
}

/// A known id's next membership is the next generation of its line, until the
/// generations are spent; a new id begins the next lineage at its first
/// generation, until the lineages are.
pub proof fn law_minting_continues_a_line_or_begins_one(
    lines: Lines,
    id: Seq<char>,
    lineage: u64,
)
    ensures
        lines.dom().contains(id) ==> {
            let newest = lines[id];
            &&& newest.generation < u64::MAX ==> minted(lines, id, lineage) == Some(
                Membership {
                    lineage: newest.lineage,
                    generation: (newest.generation + 1) as u64,
                },
            )
            &&& newest.generation == u64::MAX ==> minted(lines, id, lineage) is None
        },
        !lines.dom().contains(id) ==> {
            &&& lineage < u64::MAX ==> minted(lines, id, lineage) == Some(
                Membership { lineage: (lineage + 1) as u64, generation: 0 },
            )
            &&& lineage == u64::MAX ==> minted(lines, id, lineage) is None
        },
{
}

/// Fitting in an offered membership takes it on as it is for an id without a
/// line, and continues the line of one that has it.
pub proof fn law_fitting_adopts_or_continues(lines: Lines, id: Seq<char>, offered: Membership)
    ensures
        !lines.dom().contains(id) ==> fitted(lines, id, offered) == Some(offered),
        lines.dom().contains(id) ==> {
            let newest = lines[id];
            &&& newest.generation < u64::MAX ==> fitted(lines, id, offered) == Some(
                Membership {
                    lineage: newest.lineage,
                    generation: (newest.generation + 1) as u64,
                },
            )
            &&& newest.generation == u64::MAX ==> fitted(lines, id, offered) is None
            &&& successor(newest) == fitted(lines, id, offered)
        },
{
}

/// Evicting forgets the line of an id whose newest membership it names, and
/// touches no other line; a membership already superseded evicts nothing.
pub proof fn law_eviction_touches_one_line(
    lines: Lines,
    id: Seq<char>,
    membership: Membership,
    other: Seq<char>,
)
    requires
        other != id,
    ensures
        ({
            let after = evicted(lines, id, membership);
            &&& after.dom().contains(other) <==> lines.dom().contains(other)
            &&& lines.dom().contains(other) ==> after[other] == lines[other]
            &&& lines.dom().contains(id) && lines[id] == membership ==> !after.dom().contains(id)
            &&& lines.dom().contains(id) && lines[id] != membership ==> after == lines
            &&& !lines.dom().contains(id) ==> after == lines
        }),
{
}

} // verus!
