//! Resolved tree declarations as plain data.
//!
//! An outline is a fingerprint of policy and topology, no tree constructor: it
//! holds no implementation, arguments, closures or runtime state. Restartable
//! subtree factories stay opaque, so that making one never runs user code.

use crate::identity::{clone_path, ChildId};
use crate::observe::ScopeKind;
use crate::policy::{
    Capacity, Intensity, MailboxShutdown, Readiness, ReadinessDeadline, RestartPolicy, Retention,
    Shutdown, Strategy,
};
use vstd::prelude::*;

verus! {

/// One fully resolved tree declaration.
#[derive(Debug, PartialEq, Eq)]
pub struct Outline {
    /// Resolved root scope and its declaration-ordered children.
    pub root: ScopeOutline,
}

/// Resolved scope policy and topology.
#[derive(Debug, PartialEq, Eq)]
pub struct ScopeOutline {
    /// Ordered or dynamic scope flavor.
    pub kind: ScopeKind,
    /// Fate-sharing strategy for ordered scopes; `None` for dynamic scopes.
    pub strategy: Option<Strategy>,
    /// Scope-wide restart intensity.
    pub intensity: Intensity,
    /// Every effective default inherited by child declarations.
    pub defaults: ResolvedScopeDefaults,
    /// Children in declaration order.
    pub children: Vec<ChildOutline>,
}

/// Fully resolved scope defaults carried by an outline.
#[derive(Clone, Copy, Debug, PartialEq, Eq)]
pub struct ResolvedScopeDefaults {
    /// Default child restart policy.
    pub child_restart: RestartPolicy,
    /// Default child shutdown policy.
    pub child_shutdown: Shutdown,
    /// Default actor mailbox kind and capacity.
    pub mailbox: ResolvedMailbox,
    /// Default frozen-prefix mailbox behavior.
    pub mailbox_shutdown: MailboxShutdown,
    /// Default gated-readiness deadline.
    pub readiness_deadline: ReadinessDeadline,
}

/// Actor mailbox policy with every inherited capacity resolved.
#[derive(Clone, Copy, Debug, PartialEq, Eq, Hash)]
pub enum ResolvedMailbox {
    /// Bounded FIFO mailbox.
    Queue {
        /// Resolved non-zero message capacity.
        capacity: Capacity,
    },
    /// Single latest-value slot.
    Latest,
    /// Bounded latest-value-by-key mailbox.
    LatestByKey {
        /// Resolved non-zero distinct-key capacity.
        capacity: Capacity,
    },
}

/// Typed child flavor retained in a resolved outline.
#[derive(Clone, Copy, Debug, PartialEq, Eq, Structural, Hash)]
pub enum OutlineChildKind {
    /// Callback-oriented actor.
    Actor,
    /// Loop-owning raw actor.
    RawActor,
    /// Supervised async task.
    Task,
    /// Nested ordered scope.
    OrderedScope,
    /// Nested dynamic scope.
    DynamicScope,
}

/// One child row with every inherited policy field resolved.
#[derive(Debug, PartialEq, Eq)]
pub struct ChildOutline {
    /// Child id within this scope.
    pub id: ChildId,
    /// Typed declaration flavor.
    pub kind: OutlineChildKind,
    /// Effective restart policy.
    pub restart: RestartPolicy,
    /// Effective shutdown policy.
    pub shutdown: Shutdown,
    /// Effective readiness mode.
    pub readiness: Readiness,
    /// Effective readiness deadline.
    pub readiness_deadline: ReadinessDeadline,
    /// Effective terminal-membership retention.
    pub retention: Retention,
    /// Effective mailbox policy for actor children only.
    pub mailbox: Option<ResolvedMailbox>,
    /// Effective mailbox shutdown behavior for actor children only.
    pub mailbox_shutdown: Option<MailboxShutdown>,
    /// Nested topology for scope children only.
    pub interior: Option<OutlineInterior>,
}

/// Visibility of a nested scope declaration.
#[derive(Debug, PartialEq, Eq)]
pub enum OutlineInterior {
    /// Recursively carried one-shot subtree declaration.
    Recursive(Box<ScopeOutline>),
    /// Restartable subtree factory whose code is never invoked.
    Opaque,
}

impl ScopeOutline {
    /// Whether `other` outlines the same scope.
    pub open spec fn alike(self, other: ScopeOutline) -> bool
        decreases self,
    {
        &&& other == (ScopeOutline { children: other.children, ..self })
        &&& other.children@.len() == self.children@.len()
        &&& forall|i: int|
            0 <= i < self.children@.len() ==> (#[trigger] self.children@[i]).alike(
                other.children@[i],
            )
    }
}

impl ChildOutline {
    /// Whether `other` outlines the same child.
    pub open spec fn alike(self, other: ChildOutline) -> bool
        decreases self,
    {
        &&& other == (ChildOutline { interior: other.interior, ..self })
        &&& match (self.interior, other.interior) {
            (Some(interior), Some(copied)) => interior.alike(copied),
            (None, None) => true,
            _ => false,
        }
    }
}

impl OutlineInterior {
    /// Whether `other` shows the same of a nested scope.
    pub open spec fn alike(self, other: OutlineInterior) -> bool
        decreases self,
    {
        match (self, other) {
            (OutlineInterior::Recursive(scope), OutlineInterior::Recursive(copied)) => {
                scope.alike(*copied)
            },
            (OutlineInterior::Opaque, OutlineInterior::Opaque) => true,
            _ => false,
        }
    }
}

impl Clone for Outline {
    fn clone(&self) -> (copy: Outline)
        ensures
            self.root.alike(copy.root),
    {
        Outline { root: self.root.clone() }
    }
}

impl Clone for ScopeOutline {
    fn clone(&self) -> (copy: ScopeOutline)
        ensures
            self.alike(copy),
        decreases self,
    {
        let mut children: Vec<ChildOutline> = Vec::new();
        let mut index: usize = 0;
        while index < self.children.len()
            invariant
                index <= self.children@.len(),
                children@.len() == index,
                forall|i: int|
                    0 <= i < index ==> (#[trigger] self.children@[i]).alike(children@[i]),
            decreases self.children@.len() - index,
        {
            let child = self.children[index].clone();
            children.push(child);
            index = index + 1;
        }
        ScopeOutline {
            kind: self.kind,
            strategy: self.strategy,
            intensity: self.intensity,
            defaults: self.defaults,
            children,
        }
    }
}

impl Clone for ChildOutline {
    fn clone(&self) -> (copy: ChildOutline)
        ensures
            self.alike(copy),
        decreases self,
    {
        ChildOutline {
            id: self.id.clone(),
            kind: self.kind,
            restart: self.restart,
            shutdown: self.shutdown,
            readiness: self.readiness,
            readiness_deadline: self.readiness_deadline,
            retention: self.retention,
            mailbox: self.mailbox,
            mailbox_shutdown: self.mailbox_shutdown,
            interior: match &self.interior {
                Some(interior) => Some(interior.clone()),
                None => None,
            },
        }
    }
}

impl Clone for OutlineInterior {
    fn clone(&self) -> (copy: OutlineInterior)
        ensures
            self.alike(copy),
        decreases self,
    {
        match self {
            OutlineInterior::Recursive(scope) => OutlineInterior::Recursive(
                Box::new((&**scope).clone()),
            ),
            OutlineInterior::Opaque => OutlineInterior::Opaque,
        }
    }
}

/// Failure to outline an incomplete declaration.
#[derive(Debug, PartialEq, Eq)]
#[non_exhaustive]
pub enum OutlineError {
    /// Every unresolved reservation, as a path from the root.
    UnfilledReservations {
        /// Paths to unresolved slots, in declaration order.
        paths: Vec<Vec<ChildId>>,
    },
}

impl Clone for OutlineError {
    fn clone(&self) -> (copy: OutlineError)
        ensures
            ({
                let OutlineError::UnfilledReservations { paths } = *self;
                let OutlineError::UnfilledReservations { paths: copied } = copy;
                &&& copied@.len() == paths@.len()
                &&& forall|i: int|
                    0 <= i < paths@.len() ==> (#[trigger] copied@[i])@ == paths@[i]@
            }),
    {
        match self {
            OutlineError::UnfilledReservations { paths } => {
                let mut copied: Vec<Vec<ChildId>> = Vec::new();
                let mut index: usize = 0;
                while index < paths.len()
                    invariant
                        index <= paths@.len(),
                        copied@.len() == index,
                        forall|i: int| 0 <= i < index ==> (#[trigger] copied@[i])@ == paths@[i]@,
                    decreases paths@.len() - index,
                {
                    copied.push(clone_path(&paths[index]));
                    index = index + 1;
                }
                OutlineError::UnfilledReservations { paths: copied }
            },
        }
    }
}

impl OutlineError {
    /// The diagnostic.
    pub fn message(&self) -> (text: &'static str)
        ensures
            text@ == "tree contains unfilled reservations"@,
    {
        "tree contains unfilled reservations"
    }
}

} // verus!
