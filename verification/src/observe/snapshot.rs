//! Recursive scope snapshots and the watch that publishes them.

use crate::exit::Exit;
use crate::identity::{ChildId, Incarnation, Membership};
use crate::observe::lifecycle::ObservationWakes;
use crate::observe::{ChildState, LifecycleSeq, MembershipStatus, ScopeKind, ScopeState};
use crate::policy::{
    Intensity, RestartCount, RestartPolicy, Retention, Strategy, TotalRestarts,
};
use crate::poll::Poll;
use crate::time::Instant;
use vstd::prelude::*;

verus! {

/// Recursive current-state projection for one child membership.
#[derive(Debug, PartialEq, Eq)]
pub struct ChildSnapshot {
    /// Child label in its containing scope.
    pub id: ChildId,
    /// Child membership identity.
    pub membership: Membership,
    /// Live incarnation, if one exists.
    pub incarnation: Option<Incarnation>,
    /// Current membership state.
    pub state: ChildState,
    /// Newest prior exit, if an incarnation has exited.
    pub last_exit: Option<Exit>,
    /// Planned-removal status.
    pub membership_status: MembershipStatus,
    /// Scheduled-restart charges for this membership.
    pub restart_count: RestartCount,
    /// Resolved restart policy.
    pub restart_policy: RestartPolicy,
    /// Resolved terminal-retention policy.
    pub retention: Retention,
    /// Backoff deadline while restarting, or `None` when it is too distant for
    /// the clock.
    pub restart_at: Option<Instant>,
    /// State of a scope child when its incarnation is live or terminal.
    pub nested: Option<Box<ScopeSnapshot>>,
    /// Lifecycle watermark of a scope child, including restart windows.
    pub scope_seq: Option<LifecycleSeq>,
}

/// Recursive current-state projection for one scope.
#[derive(Debug, PartialEq, Eq)]
pub struct ScopeSnapshot {
    /// Current scope state.
    pub state: ScopeState,
    /// Ordered or dynamic scope flavor.
    pub kind: ScopeKind,
    /// Fate-sharing strategy for ordered scopes; `None` for dynamic scopes.
    pub strategy: Option<Strategy>,
    /// Scope-wide restart budget.
    pub intensity: Intensity,
    /// Restart charges across children in this incarnation.
    pub total_restarts: TotalRestarts,
    /// This scope membership's lifecycle watermark.
    pub lifecycle_seq: LifecycleSeq,
    /// Children in declaration or admission order.
    pub children: Vec<ChildSnapshot>,
}

impl ChildSnapshot {
    /// Whether `other` says the same of the child.
    pub open spec fn alike(self, other: ChildSnapshot) -> bool
        decreases self,
    {
        &&& other == (ChildSnapshot { nested: other.nested, ..self })
        &&& match (self.nested, other.nested) {
            (Some(nested), Some(copied)) => nested.alike(*copied),
            (None, None) => true,
            _ => false,
        }
    }
}

impl ScopeSnapshot {
    /// Whether `other` says the same of the scope.
    pub open spec fn alike(self, other: ScopeSnapshot) -> bool
        decreases self,
    {
        &&& other == (ScopeSnapshot { children: other.children, ..self })
        &&& other.children@.len() == self.children@.len()
        &&& forall|i: int|
            0 <= i < self.children@.len() ==> (#[trigger] self.children@[i]).alike(
                other.children@[i],
            )
    }
}

impl Clone for ChildSnapshot {
    fn clone(&self) -> (copy: ChildSnapshot)
        ensures
            self.alike(copy),
        decreases self,
    {
        ChildSnapshot {
            id: self.id.clone(),
            membership: self.membership,
            incarnation: self.incarnation,
            state: self.state,
            last_exit: self.last_exit,
            membership_status: self.membership_status,
            restart_count: self.restart_count,
            restart_policy: self.restart_policy,
            retention: self.retention,
            restart_at: self.restart_at,
            nested: match &self.nested {
                Some(nested) => Some(Box::new((&**nested).clone())),
                None => None,
            },
            scope_seq: self.scope_seq,
        }
    }
}

impl Clone for ScopeSnapshot {
    fn clone(&self) -> (copy: ScopeSnapshot)
        ensures
            self.alike(copy),
        decreases self,
    {
        let mut children: Vec<ChildSnapshot> = Vec::new();
        let mut index: usize = 0;
        while index < self.children.len()
            invariant
                index <= self.children@.len(),
                children@.len() == index,
                forall|i: int|
                    0 <= i < index ==> (#[trigger] self.children@[i]).alike(children@[i]),
            decreases self.children@.len() - index,
        {
            let child = self.children[index].clone();
            children.push(child);
            index = index + 1;
        }
        ScopeSnapshot {
            state: self.state,
            kind: self.kind,
            strategy: self.strategy,
            intensity: self.intensity,
            total_restarts: self.total_restarts,
            lifecycle_seq: self.lifecycle_seq,
            children,
        }
    }
}

/// The first child labelled `id`.
pub open spec fn first_labelled(children: Seq<ChildSnapshot>, id: Seq<char>) -> Option<
    ChildSnapshot,
>
    decreases children.len(),
{
    if children.len() == 0 {
        None
    } else if children[0].id@ == id {
        Some(children[0])
    } else {
        first_labelled(children.skip(1), id)
    }
}

impl ScopeSnapshot {
    /// Finds a direct child by its current resident label.
    #[must_use]
    pub fn child(&self, id: &ChildId) -> (found: Option<&ChildSnapshot>)
        ensures
            found == match first_labelled(self.children@, id@) {
                Some(child) => Some(&child),
                None => None,
            },
    {
        let mut index: usize = 0;
        proof {
            assert(self.children@.skip(0) =~= self.children@);
        }
        while index < self.children.len()
            invariant
                index <= self.children@.len(),
                first_labelled(self.children@.skip(index as int), id@) == first_labelled(
                    self.children@,
                    id@,
                ),
            decreases self.children@.len() - index,
        {
            let ghost rest = self.children@.skip(index as int);
            proof {
                assert(rest.skip(1) =~= self.children@.skip(index + 1));
            }
            if self.children[index].id.same(id) {
                return Some(&self.children[index]);
            }
            index = index + 1;
        }
        None
    }
}

/// The child at the end of a path of labels. Only going past a child takes its
/// nested snapshot, so a path may end at any child.
pub open spec fn at_path(scope: ScopeSnapshot, path: Seq<Seq<char>>) -> Option<ChildSnapshot>
    decreases path.len(),
{
    if path.len() == 0 {
        None
    } else {
        match first_labelled(scope.children@, path[0]) {
            None => None,
            Some(child) => if path.len() == 1 {
                Some(child)
            } else {
                match child.nested {
                    Some(nested) => at_path(*nested, path.skip(1)),
                    None => None,
                }
            },
        }
    }
}

/// The labels of a path.
pub open spec fn labels(path: Seq<ChildId>) -> Seq<Seq<char>> {
    path.map_values(|id: ChildId| id@)
}

impl ScopeSnapshot {
    /// Follows a child-id path through recursive scope snapshots.
    #[must_use]
    pub fn descendant(&self, path: &Vec<ChildId>) -> (found: Option<&ChildSnapshot>)
        ensures
            found == match at_path(*self, labels(path@)) {
                Some(child) => Some(&child),
                None => None,
            },
    {
        let mut scope: &ScopeSnapshot = self;
        let mut index: usize = 0;
        proof {
            assert(labels(path@).skip(0) =~= labels(path@));
        }
        while index < path.len()
            invariant
                index <= path@.len(),
                at_path(*scope, labels(path@).skip(index as int)) == at_path(
                    *self,
                    labels(path@),
                ),
            decreases path@.len() - index,
        {
            let ghost rest = labels(path@).skip(index as int);
            proof {
                assert(rest.skip(1) =~= labels(path@).skip(index + 1));
                assert(rest[0] == path@[index as int]@);
            }
            let child = match scope.child(&path[index]) {
                Some(child) => child,
                None => {
                    return None;
                },
            };
            if index + 1 == path.len() {
                return Some(child);
            }
            scope = match &child.nested {
                Some(nested) => &**nested,
                None => {
                    return None;
                },
            };
            index = index + 1;
        }
        None
    }
}

/// The lifecycle watermark that `children` or their descendants hold for
/// `membership`: the first that has one.
pub open spec fn watermark_among(children: Seq<ChildSnapshot>, membership: Membership) -> Option<
    LifecycleSeq,
>
    decreases children,
{
    if children.len() == 0 {
        None
    } else {
        let child = children[0];
        let own = if child.membership == membership {
            child.scope_seq
        } else {
            match child.nested {
                Some(nested) => watermark_among(nested.children@, membership),
                None => None,
            }
        };
        if own is Some {
            own
        } else {
            watermark_among(children.subrange(1, children.len() as int), membership)
        }
    }
}

impl ScopeSnapshot {
    /// Looks up the lifecycle watermark for a descendant emitting scope.
    #[must_use]
    pub fn watermark(&self, membership: Membership) -> (seq: Option<LifecycleSeq>)
        ensures
            seq == watermark_among(self.children@, membership),
        decreases self,
    {
        let mut index: usize = 0;
        proof {
            assert(self.children@.subrange(0, self.children@.len() as int) =~= self.children@);
        }
        while index < self.children.len()
            invariant
                index <= self.children@.len(),
                watermark_among(
                    self.children@.subrange(index as int, self.children@.len() as int),
                    membership,
                ) == watermark_among(self.children@, membership),
            decreases self.children@.len() - index,
        {
            let ghost rest = self.children@.subrange(index as int, self.children@.len() as int);
            proof {
                assert(rest.subrange(1, rest.len() as int) =~= self.children@.subrange(
                    index + 1,
                    self.children@.len() as int,
                ));
                assert(rest[0] == self.children@[index as int]);
            }
            let child = &self.children[index];
            let own = if child.membership == membership {
                child.scope_seq
            } else {
                match &child.nested {
                    Some(nested) => nested.watermark(membership),
                    None => None,
                }
            };
            if own.is_some() {
                return own;
            }
            index = index + 1;
        }
        None
    }
}

/// Told to a snapshot receiver once its watch has closed.
#[derive(Clone, Copy, Debug, PartialEq, Eq, Structural)]
pub struct SnapshotClosed;

impl SnapshotClosed {
    /// The diagnostic.
    pub fn message(self) -> (text: &'static str)
        ensures
            text@ == "scope snapshot watch is closed"@,
    {
        "scope snapshot watch is closed"
    }
}

/// What a snapshot watch holds.
#[derive(Debug)]
pub struct SnapshotHubState<S> {
    /// The newest snapshot.
    pub snapshot: S,
    /// Counts publications.
    pub generation: u64,
    /// Whether the membership is terminal.
    pub closed: bool,
}

/// A conflating watch for a scope's snapshots. It holds nothing until someone
/// first subscribes.
#[derive(Debug)]
pub struct SnapshotHub<S> {
    /// What the watch holds, once someone has subscribed.
    pub state: Option<SnapshotHubState<S>>,
    /// How many receivers there are.
    pub receivers: usize,
    /// Whether the membership is terminal.
    pub closed: bool,
}

/// A conflating receiver of snapshots.
#[derive(Debug)]
pub struct SnapshotReceiver<S> {
    /// The one snapshot a subscriber of a closed watch gets.
    pub terminal: Option<S>,
    /// The newest publication it has observed.
    pub seen_generation: u64,
}

/// One more than `generation`, or the numeric limit.
pub open spec fn next_generation(generation: u64) -> u64 {
    if generation < u64::MAX {
        (generation + 1) as u64
    } else {
        u64::MAX
    }
}

impl<S> SnapshotHub<S> {
    /// What holds of every watch: closing reaches what it holds, and no one
    /// reads a watch that holds nothing.
    pub open spec fn wf(self) -> bool {
        &&& self.state matches Some(state) ==> state.closed == self.closed
        &&& self.receivers > 0 ==> self.state is Some
    }

    /// Whether a publication would reach anyone.
    pub open spec fn watched(self) -> bool {
        !self.closed && self.state is Some && self.receivers > 0
    }

    /// A watch nobody has subscribed to.
    pub fn new() -> (hub: SnapshotHub<S>)
        ensures
            hub.wf(),
            hub == (SnapshotHub::<S> { state: None, receivers: 0, closed: false }),
    {
        SnapshotHub { state: None, receivers: 0, closed: false }
    }

    /// Subscribes. Where no one else watches, what the watch holds may be stale
    /// and is replaced by `initial`; a closed watch only hands out `initial`.
    pub fn subscribe(&mut self, initial: S) -> (receiver: SnapshotReceiver<S>)
        requires
            old(self).wf(),
            old(self).receivers < usize::MAX,
        ensures
            final(self).wf(),
            receiver.reads(*final(self)),
            final(self).closed == old(self).closed,
            old(self).closed ==> {
                &&& *final(self) == *old(self)
                &&& receiver == (SnapshotReceiver {
                    terminal: Some(initial),
                    seen_generation: 0,
                })
            },
            !old(self).closed ==> {
                &&& receiver.terminal is None
                &&& final(self).receivers == old(self).receivers + 1
                &&& final(self).state matches Some(state) && receiver.seen_generation
                    == state.generation
                &&& old(self).receivers > 0 ==> final(self).state == old(self).state
                &&& old(self).receivers == 0 ==> {
                    let earlier: u64 = match old(self).state {
                        Some(state) => state.generation,
                        None => 0,
                    };
                    final(self).state == Some(
                        SnapshotHubState {
                            snapshot: initial,
                            generation: next_generation(earlier),
                            closed: false,
                        },
                    )
                }
            },
    {
        if self.closed {
            return SnapshotReceiver { terminal: Some(initial), seen_generation: 0 };
        }
        if self.receivers == 0 {
            let earlier: u64 = match &self.state {
                Some(state) => state.generation,
                None => 0,
            };
            self.state = Some(
                SnapshotHubState {
                    snapshot: initial,
                    generation: earlier.saturating_add(1),
                    closed: false,
                },
            );
        }
        self.receivers = self.receivers + 1;
        let seen_generation: u64 = match &self.state {
            Some(state) => state.generation,
            None => 0,
        };
        SnapshotReceiver { terminal: None, seen_generation }
    }

    /// Publishes the snapshot that `project` makes. It is made only where
    /// someone watches; reports whether receivers are to be woken.
    pub fn publish<P: Fn() -> S>(&mut self, project: &P) -> (published: bool)
        requires
            old(self).wf(),
            old(self).watched() ==> call_requires(*project, ()),
        ensures
            final(self).wf(),
            published == old(self).watched(),
            !published ==> *final(self) == *old(self),
            published ==> {
                &&& final(self).receivers == old(self).receivers
                &&& !final(self).closed
                &&& final(self).state matches Some(state) && {
                    &&& call_ensures(*project, (), state.snapshot)
                    &&& state.generation == next_generation(old(self).state->Some_0.generation)
                    &&& !state.closed
                }
            },
    {
        if self.closed || self.receivers == 0 {
            return false;
        }
        match &mut self.state {
            None => false,
            Some(state) => {
                state.snapshot = project();
                state.generation = state.generation.saturating_add(1);
                true
            },
        }
    }

    /// Publishes a snapshot and leaves the wake to be run later.
    pub fn publish_deferred<P: Fn() -> S>(&mut self, wakes: &mut ObservationWakes, project: &P)
        requires
            old(self).wf(),
            old(self).watched() ==> call_requires(*project, ()),
        ensures
            final(self).wf(),
            *final(wakes) == (ObservationWakes {
                snapshots: old(wakes).snapshots || old(self).watched(),
                ..*old(wakes)
            }),
            !old(self).watched() ==> *final(self) == *old(self),
            old(self).watched() ==> {
                &&& final(self).receivers == old(self).receivers
                &&& !final(self).closed
                &&& final(self).state matches Some(state) && {
                    &&& call_ensures(*project, (), state.snapshot)
                    &&& state.generation == next_generation(old(self).state->Some_0.generation)
                    &&& !state.closed
                }
            },
    {
        if self.publish(project) {
            wakes.snapshots = true;
        }
    }

    /// Closes the watch; reports whether receivers are to be woken.
    pub fn close(&mut self) -> (woken: bool)
        requires
            old(self).wf(),
        ensures
            final(self).wf(),
            woken == (!old(self).closed && old(self).state is Some),
            *final(self) == (SnapshotHub {
                closed: true,
                state: match old(self).state {
                    Some(state) => Some(SnapshotHubState { closed: true, ..state }),
                    None => None,
                },
                ..*old(self)
            }),
    {
        if self.closed {
            return false;
        }
        self.closed = true;
        match &mut self.state {
            Some(state) => {
                state.closed = true;
                true
            },
            None => false,
        }
    }

    /// Closes the watch and leaves the wake to be run later.
    pub fn close_deferred(&mut self, wakes: &mut ObservationWakes)
        requires
            old(self).wf(),
        ensures
            final(self).wf(),
            *final(wakes) == (ObservationWakes {
                snapshots: old(wakes).snapshots || (!old(self).closed && old(self).state is Some),
                ..*old(wakes)
            }),
            *final(self) == (SnapshotHub {
                closed: true,
                state: match old(self).state {
                    Some(state) => Some(SnapshotHubState { closed: true, ..state }),
                    None => None,
                },
                ..*old(self)
            }),
    {
        if self.close() {
            wakes.snapshots = true;
        }
    }
}

impl<S> SnapshotReceiver<S> {
    /// Whether the receiver is one of `hub`'s.
    pub open spec fn reads(self, hub: SnapshotHub<S>) -> bool {
        if self.terminal is Some {
            hub.closed
        } else {
            hub.state is Some
        }
    }

    /// The newest snapshot.
    pub open spec fn newest(self, hub: SnapshotHub<S>) -> S {
        match self.terminal {
            Some(snapshot) => snapshot,
            None => hub.state->Some_0.snapshot,
        }
    }

    /// Whether a publication it has not observed is there.
    pub open spec fn behind(self, hub: SnapshotHub<S>) -> bool {
        self.terminal is None && hub.state->Some_0.generation != self.seen_generation
    }

    /// Borrows the newest snapshot without marking it observed.
    #[must_use]
    pub fn borrow_latest<'a>(&'a self, hub: &'a SnapshotHub<S>) -> (snapshot: &'a S)
        requires
            self.reads(*hub),
        ensures
            *snapshot == self.newest(*hub),
    {
        match &self.terminal {
            Some(snapshot) => snapshot,
            None => match &hub.state {
                Some(state) => &state.snapshot,
                None => vstd::pervasive::unreached(),
            },
        }
    }

    /// Observes a newer snapshot: ready where there is one, also on a watch
    /// that has closed since; closed where there will be none.
    pub fn changed<'a>(&mut self, hub: &'a SnapshotHub<S>) -> (polled: Poll<
        Result<&'a S, SnapshotClosed>,
    >)
        requires
            hub.wf(),
            old(self).reads(*hub),
        ensures
            final(self).reads(*hub),
            final(self).terminal == old(self).terminal,
            old(self).behind(*hub) ==> {
                &&& polled == Poll::Ready(
                    Ok::<&S, SnapshotClosed>(&hub.state->Some_0.snapshot),
                )
                &&& final(self).seen_generation == hub.state->Some_0.generation
            },
            !old(self).behind(*hub) ==> {
                &&& *final(self) == *old(self)
                &&& polled == if hub.closed {
                    Poll::Ready(Err::<&S, SnapshotClosed>(SnapshotClosed))
                } else {
                    Poll::Pending
                }
            },
    {
        if self.terminal.is_some() {
            return Poll::Ready(Err(SnapshotClosed));
        }
        match &hub.state {
            Some(state) => {
                if state.generation != self.seen_generation {
                    self.seen_generation = state.generation;
                    return Poll::Ready(Ok(&state.snapshot));
                }
                if state.closed {
                    Poll::Ready(Err(SnapshotClosed))
                } else {
                    Poll::Pending
                }
            },
            None => vstd::pervasive::unreached(),
        }
    }

    /// Another receiver, which has observed what this one has.
    pub fn duplicate(&self, hub: &mut SnapshotHub<S>) -> (copy: SnapshotReceiver<S>)
        where S: Clone
        requires
            old(hub).wf(),
            self.reads(*old(hub)),
            self.terminal is None ==> old(hub).receivers < usize::MAX,
        ensures
            final(hub).wf(),
            copy.reads(*final(hub)),
            *final(hub) == (SnapshotHub {
                receivers: if self.terminal is None {
                    (old(hub).receivers + 1) as usize
                } else {
                    old(hub).receivers
                },
                ..*old(hub)
            }),
            copy.seen_generation == self.seen_generation,
            match (self.terminal, copy.terminal) {
                (Some(snapshot), Some(copied)) => cloned(snapshot, copied),
                (None, None) => true,
                _ => false,
            },
    {
        let terminal = match &self.terminal {
            Some(snapshot) => Some(snapshot.clone()),
            None => {
                hub.receivers = hub.receivers + 1;
                None
            },
        };
        SnapshotReceiver { terminal, seen_generation: self.seen_generation }
    }

    /// Drops the receiver; the last one leaves the watch to go stale.
    pub fn unsubscribe(self, hub: &mut SnapshotHub<S>)
        requires
            old(hub).wf(),
            self.reads(*old(hub)),
            self.terminal is None ==> old(hub).receivers > 0,
        ensures
            final(hub).wf(),
            *final(hub) == (SnapshotHub {
                receivers: if self.terminal is None {
                    (old(hub).receivers - 1) as usize
                } else {
                    old(hub).receivers
                },
                ..*old(hub)
            }),
    {
        if self.terminal.is_none() {
            hub.receivers = hub.receivers - 1;
        }
    }
}

/// A publication before the close is still observed, once; then the watch reads
/// as closed.
pub proof fn law_a_publication_before_the_close_is_observed<S>(
    receiver: SnapshotReceiver<S>,
    hub: SnapshotHub<S>,
    observed: SnapshotReceiver<S>,
)
    requires
        hub.wf(),
        hub.closed,
        receiver.reads(hub),
        observed == (SnapshotReceiver {
            seen_generation: hub.state->Some_0.generation,
            ..receiver
        }),
    ensures
        !observed.behind(hub),
        receiver.behind(hub) ==> receiver.newest(hub) == hub.state->Some_0.snapshot,
        !hub.watched(),
{
}

} // verus!
