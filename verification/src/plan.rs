//! Declaration lowering and the construction plan it makes.

use crate::exit::Exit;
use crate::identity::{
    evicted, fitted, minted, ChildId, LineageSource, Lines, Membership, MembershipReconciliation,
    ScopeIdentity,
};
use crate::mailbox::handle::MemberCell;
use crate::policy::{
    common_fault, path_ids, resolve_common, resolved_common, ChildMode, CommonOptions,
    DefaultsInheritance, Fault, Intensity, InvalidPolicy, Readiness, ResolvedCommonOptions,
    ResolvedDefaults, ScopeDefaults, ScopeFlavor,
};
use crate::raw::definition::{DefinitionSource, RawConstruction};
use vstd::prelude::*;

pub mod laws;

verus! {

/// What a scope declares about itself.
#[derive(Clone, Copy, Debug, PartialEq, Eq)]
pub struct ScopeConfig {
    /// The restart budget.
    pub intensity: Intensity,
    /// Defaults for the children.
    pub defaults: ScopeDefaults,
}

/// A restartable task definition.
#[derive(Debug)]
pub struct TaskDef<F> {
    /// Makes the task of each incarnation.
    pub factory: F,
    /// What the definition declares.
    pub options: CommonOptions,
}

/// A one-shot task.
#[derive(Debug)]
pub struct OnceTask<R> {
    /// The task.
    pub task: R,
    /// What the definition declares.
    pub options: CommonOptions,
}

/// A nested scope definition.
#[derive(Debug)]
pub struct ScopeConstruction<F, R> {
    /// Where incarnations come from.
    pub source: DefinitionSource<F, R>,
    /// What the definition declares.
    pub options: CommonOptions,
    /// How the scope's own defaults are inherited.
    pub defaults: DefaultsInheritance,
}

impl<F, R> ScopeConstruction<F, R> {
    /// Whether the scope can be recreated.
    pub fn mode(&self) -> (mode: ChildMode)
        ensures
            mode == mode_of(self.source),
    {
        if self.source.is_one_shot() {
            ChildMode::OneShot
        } else {
            ChildMode::Restartable
        }
    }

    /// The factory.
    pub fn restartable(&self) -> (factory: Option<&F>)
        ensures
            factory == match self.source {
                DefinitionSource::Restartable(factory) => Some(&factory),
                DefinitionSource::OneShot(_) => None,
            },
    {
        self.source.restartable()
    }

    /// Takes the one declaration; there is none a second time.
    pub fn take_one_shot(&mut self) -> (declaration: Option<R>)
        ensures
            declaration == match old(self).source {
                DefinitionSource::OneShot(declaration) => declaration,
                DefinitionSource::Restartable(_) => None,
            },
            *final(self) == (ScopeConstruction { source: old(self).source.taken(), ..*old(self) }),
    {
        self.source.take_one_shot()
    }
}

/// Whether what comes from `source` can be recreated.
pub open spec fn mode_of<F, R>(source: DefinitionSource<F, R>) -> ChildMode {
    match source {
        DefinitionSource::OneShot(_) => ChildMode::OneShot,
        DefinitionSource::Restartable(_) => ChildMode::Restartable,
    }
}

/// What a child is made from.
#[derive(Debug)]
pub enum ChildConstruction<F, R> {
    /// A raw actor.
    Raw(RawConstruction<F, R>),
    /// A restartable task.
    Task(TaskDef<F>),
    /// A one-shot task.
    TaskOnce(OnceTask<R>),
    /// A nested scope.
    Scope(ScopeConstruction<F, R>),
}

impl<F, R> ChildConstruction<F, R> {
    /// What the construction asks of resolution: its options, whether it can be
    /// recreated, and its kind's readiness. A scope's readiness is its own
    /// startup barrier, whatever its options say.
    pub open spec fn request(self) -> (CommonOptions, ChildMode, Readiness) {
        match self {
            ChildConstruction::Raw(raw) => (raw.options, mode_of(raw.source), raw.readiness),
            ChildConstruction::Task(task) => (
                task.options,
                ChildMode::Restartable,
                Readiness::Immediate,
            ),
            ChildConstruction::TaskOnce(task) => (
                task.options,
                ChildMode::OneShot,
                Readiness::Immediate,
            ),
            ChildConstruction::Scope(scope) => (
                CommonOptions { readiness: None, ..scope.options },
                mode_of(scope.source),
                Readiness::Manual,
            ),
        }
    }

    /// What is wrong with the construction under `defaults`.
    pub open spec fn fault(self, defaults: ResolvedDefaults) -> Option<Fault> {
        common_fault(self.request().0, defaults)
    }

    /// What the construction's options resolve to under `defaults`.
    pub open spec fn resolved(self, defaults: ResolvedDefaults) -> ResolvedCommonOptions {
        resolved_common(self.request().0, defaults, self.request().1, self.request().2)
    }

    /// Resolves the construction's options under `defaults`.
    pub fn resolve_defined_policy(&self, defaults: &ResolvedDefaults) -> (resolved: Result<
        ResolvedCommonOptions,
        InvalidPolicy,
    >)
        ensures
            crate::policy::reports(resolved, self.fault(*defaults)),
            resolved matches Ok(options) ==> options == self.resolved(*defaults),
    {
        match self {
            ChildConstruction::Raw(raw) => resolve_common(
                raw.options(),
                defaults,
                raw.mode(),
                raw.readiness(),
            ),
            ChildConstruction::Task(task) => resolve_common(
                &task.options,
                defaults,
                ChildMode::Restartable,
                Readiness::Immediate,
            ),
            ChildConstruction::TaskOnce(task) => resolve_common(
                &task.options,
                defaults,
                ChildMode::OneShot,
                Readiness::Immediate,
            ),
            ChildConstruction::Scope(scope) => {
                let options = CommonOptions { readiness: None, ..scope.options };
                resolve_common(&options, defaults, scope.mode(), Readiness::Manual)
            },
        }
    }
}

/// A scope's readiness is structural: no option changes it.
pub proof fn law_scope_readiness_is_structural<F, R>(
    scope: ScopeConstruction<F, R>,
    defaults: ResolvedDefaults,
)
    ensures
        ChildConstruction::Scope(scope).resolved(defaults).readiness is Manual,
        ChildConstruction::Scope(scope).resolved(defaults).readiness_override is None,
{
}

/// Why a reservation failed.
#[derive(Debug, PartialEq, Eq)]
pub enum ReserveError {
    /// The id is empty.
    EmptyId,
    /// The id is taken.
    DuplicateId(ChildId),
    /// No membership is left for the id.
    IdentityExhausted,
}

/// Accepts an id that is not empty.
pub fn checked_id(id: ChildId) -> (checked: Result<ChildId, ReserveError>)
    ensures
        checked == if id@.len() == 0 {
            Err::<ChildId, ReserveError>(ReserveError::EmptyId)
        } else {
            Ok::<ChildId, ReserveError>(id)
        },
{
    if id.is_empty() {
        Err(ReserveError::EmptyId)
    } else {
        Ok(id)
    }
}

/// A scope: its membership and the memberships of its children.
#[derive(Debug)]
pub struct ScopeCell {
    /// The scope's own slot.
    pub member: MemberCell,
    /// Fixed or changing membership.
    pub flavor: ScopeFlavor,
    /// The children's memberships.
    pub identity: ScopeIdentity,
    /// The restart budget observers see.
    pub intensity: Option<Intensity>,
    /// How the scope ended.
    pub terminal: Option<Exit>,
}

impl ScopeCell {
    /// A scope that was not started.
    pub fn new(member: MemberCell, flavor: ScopeFlavor, identity: ScopeIdentity) -> (scope:
        ScopeCell)
        ensures
            scope == (ScopeCell { member, flavor, identity, intensity: None, terminal: None }),
    {
        ScopeCell { member, flavor, identity, intensity: None, terminal: None }
    }

    /// Ends a scope that never started, unless it has ended.
    pub fn terminalize_never_started(&mut self)
        ensures
            *final(self) == (ScopeCell { terminal: ended(old(self).terminal), ..*old(self) }),
    {
        if self.terminal.is_none() {
            self.terminal = Some(Exit::never_started());
        }
    }
}

/// How something that never started ends, unless it has ended.
pub open spec fn ended(terminal: Option<Exit>) -> Option<Exit> {
    match terminal {
        Some(exit) => Some(exit),
        None => Some(Exit { started: false, failure: false, evidence: 0 }),
    }
}

/// A slot's definition.
#[derive(Debug)]
pub enum DefinitionState<F, R> {
    /// None yet.
    Undefined,
    /// This one.
    Defined(ChildConstruction<F, R>),
    /// It was claimed.
    Lowered,
}

/// A definition was claimed before.
#[derive(Clone, Copy, Debug, PartialEq, Eq, Structural)]
pub struct DefinitionAlreadyLowered;

/// A declared child: its identity and its definition.
#[derive(Debug)]
pub struct SlotCell<F, R> {
    /// The child's slot.
    pub member: MemberCell,
    /// The flavor of a child that is a scope.
    pub scope: Option<ScopeFlavor>,
    /// The child's definition.
    pub definition: DefinitionState<F, R>,
    /// The child's resolved options.
    pub options: Option<ResolvedCommonOptions>,
    /// How the child ended.
    pub terminal: Option<Exit>,
}

impl<F, R> SlotCell<F, R> {
    /// A slot without a definition.
    pub fn new(member: MemberCell, scope: Option<ScopeFlavor>) -> (slot: SlotCell<F, R>)
        ensures
            slot == (SlotCell::<F, R> {
                member,
                scope,
                definition: DefinitionState::Undefined,
                options: None,
                terminal: None,
            }),
    {
        SlotCell {
            member,
            scope,
            definition: DefinitionState::Undefined,
            options: None,
            terminal: None,
        }
    }

    /// Defines the child. A slot is defined once.
    pub fn define(&mut self, definition: ChildConstruction<F, R>)
        requires
            old(self).definition is Undefined,
        ensures
            *final(self) == (SlotCell {
                definition: DefinitionState::Defined(definition),
                ..*old(self)
            }),
    {
        self.definition = DefinitionState::Defined(definition);
    }

    /// Whether the child has no definition yet.
    pub fn is_undefined(&self) -> (undefined: bool)
        ensures
            undefined == (self.definition is Undefined),
    {
        match &self.definition {
            DefinitionState::Undefined => true,
            _ => false,
        }
    }

    /// Claims the definition: an undefined slot stays so, and a claimed one
    /// cannot be claimed again.
    pub fn take_definition(&mut self) -> (definition: Result<
        Option<ChildConstruction<F, R>>,
        DefinitionAlreadyLowered,
    >)
        ensures
            match old(self).definition {
                DefinitionState::Undefined => definition == Ok::<
                    Option<ChildConstruction<F, R>>,
                    DefinitionAlreadyLowered,
                >(None) && *final(self) == *old(self),
                DefinitionState::Defined(construction) => definition == Ok::<
                    Option<ChildConstruction<F, R>>,
                    DefinitionAlreadyLowered,
                >(Some(construction)) && *final(self) == (SlotCell {
                    definition: DefinitionState::Lowered,
                    ..*old(self)
                }),
                DefinitionState::Lowered => definition == Err::<
                    Option<ChildConstruction<F, R>>,
                    DefinitionAlreadyLowered,
                >(DefinitionAlreadyLowered) && *final(self) == *old(self),
            },
    {
        let mut taken: DefinitionState<F, R> = DefinitionState::Lowered;
        core::mem::swap(&mut taken, &mut self.definition);
        match taken {
            DefinitionState::Defined(construction) => Ok(Some(construction)),
            DefinitionState::Undefined => {
                self.definition = DefinitionState::Undefined;
                Ok(None)
            },
            DefinitionState::Lowered => Err(DefinitionAlreadyLowered),
        }
    }

    /// Ends a child that never started and forgets its line in `owner`, so that
    /// a later child of that id is no successor of this one.
    pub fn terminalize_never_started(&mut self, owner: &mut ScopeCell)
        ensures
            *final(self) == (SlotCell { terminal: ended(old(self).terminal), ..*old(self) }),
            final(owner).identity@ == evicted(
                old(owner).identity@,
                old(self).member.id@,
                old(self).member.membership,
            ),
            *final(owner) == (ScopeCell { identity: final(owner).identity, ..*old(owner) }),
    {
        if self.terminal.is_none() {
            self.terminal = Some(Exit::never_started());
        }
        owner.identity.evict(&self.member.id, self.member.membership);
    }

    /// Ends a child that never started and claims its definition, to be
    /// destroyed.
    pub fn take_never_started(&mut self, owner: &mut ScopeCell) -> (definition: Option<
        ChildConstruction<F, R>,
    >)
        ensures
            definition == match old(self).definition {
                DefinitionState::Defined(construction) => Some(construction),
                _ => None,
            },
            *final(self) == (SlotCell {
                definition: if old(self).definition is Defined {
                    DefinitionState::Lowered
                } else {
                    old(self).definition
                },
                terminal: ended(old(self).terminal),
                ..*old(self)
            }),
            final(owner).identity@ == evicted(
                old(owner).identity@,
                old(self).member.id@,
                old(self).member.membership,
            ),
            *final(owner) == (ScopeCell { identity: final(owner).identity, ..*old(owner) }),
    {
        let definition = match self.take_definition() {
            Ok(definition) => definition,
            Err(_) => None,
        };
        self.terminalize_never_started(owner);
        definition
    }

    /// Resolves a defined child's options.
    pub fn resolve_policy(&self, defaults: &ResolvedDefaults) -> (resolved: Option<
        Result<ResolvedCommonOptions, InvalidPolicy>,
    >)
        ensures
            resolved is Some <==> self.definition is Defined,
            self.definition matches DefinitionState::Defined(construction) ==> {
                &&& crate::policy::reports(resolved->Some_0, construction.fault(*defaults))
                &&& resolved->Some_0 matches Ok(options) ==> options == construction.resolved(
                    *defaults,
                )
            },
    {
        match &self.definition {
            DefinitionState::Defined(construction) => Some(
                construction.resolve_defined_policy(defaults),
            ),
            _ => None,
        }
    }

    /// Resolves a defined child's options and claims its definition, in one
    /// step: no one can claim it in between. An invalid one is not claimed.
    pub fn resolve_and_take_defined(&mut self, defaults: &ResolvedDefaults) -> (claimed: Option<
        Result<(ChildConstruction<F, R>, ResolvedCommonOptions), InvalidPolicy>,
    >)
        ensures
            claimed is Some <==> old(self).definition is Defined,
            claimed is None ==> *final(self) == *old(self),
            old(self).definition matches DefinitionState::Defined(construction) ==> {
                &&& crate::policy::reports(claimed->Some_0, construction.fault(*defaults))
                &&& claimed->Some_0 is Err ==> *final(self) == *old(self)
                &&& claimed->Some_0 matches Ok(claim) ==> {
                    &&& claim == (construction, construction.resolved(*defaults))
                    &&& *final(self) == (SlotCell {
                        definition: DefinitionState::Lowered,
                        ..*old(self)
                    })
                }
            },
    {
        match self.resolve_policy(defaults) {
            None => None,
            Some(Err(invalid)) => Some(Err(invalid)),
            Some(Ok(options)) => match self.take_definition() {
                Ok(Some(construction)) => Some(Ok((construction, options))),
                _ => vstd::pervasive::unreached(),
            },
        }
    }
}

/// Mints a slot for child `id` of `parent`; the caller names the slot.
pub fn mint_reserved_slot<F, R>(
    parent: &mut ScopeCell,
    id: &ChildId,
    slot: u64,
    child_scope: Option<ScopeFlavor>,
    lineages: &mut LineageSource,
) -> (reserved: Result<SlotCell<F, R>, ReserveError>)
    ensures
        *final(parent) == (ScopeCell { identity: final(parent).identity, ..*old(parent) }),
        match minted(old(parent).identity@, id@, old(lineages)@) {
            Some(membership) => {
                &&& reserved == Ok::<SlotCell<F, R>, ReserveError>(
                    SlotCell {
                        member: MemberCell { slot, id: *id, membership },
                        scope: child_scope,
                        definition: DefinitionState::Undefined,
                        options: None,
                        terminal: None,
                    },
                )
                &&& final(parent).identity@ == old(parent).identity@.insert(id@, membership)
            },
            None => {
                &&& reserved == Err::<SlotCell<F, R>, ReserveError>(
                    ReserveError::IdentityExhausted,
                )
                &&& final(parent).identity@ == old(parent).identity@
            },
        },
        final(lineages)@ == if old(parent).identity@.dom().contains(id@) || reserved is Err {
            old(lineages)@
        } else {
            (old(lineages)@ + 1) as u64
        },
{
    match parent.identity.mint_membership(id, lineages) {
        Some(membership) => Ok(
            SlotCell::new(MemberCell::new(slot, id.clone(), membership), child_scope),
        ),
        None => Err(ReserveError::IdentityExhausted),
    }
}

/// A declaration before its defaults and identities are settled.
#[derive(Debug)]
pub struct BuilderCore<F, R> {
    /// The declared scope.
    pub root: ScopeCell,
    /// What it declares about itself.
    pub config: ScopeConfig,
    /// Its children, in declaration order.
    pub slots: Vec<SlotCell<F, R>>,
}

/// A child ready to be started.
#[derive(Debug)]
pub struct ChildPlan<F, R> {
    /// The child's slot.
    pub slot: SlotCell<F, R>,
    /// What it is made from.
    pub construction: ChildConstruction<F, R>,
    /// Its resolved options.
    pub options: ResolvedCommonOptions,
}

impl<F, R> ChildPlan<F, R> {
    /// The plan of `slot`, whose options are published with it.
    pub fn with_options(
        slot: SlotCell<F, R>,
        construction: ChildConstruction<F, R>,
        options: ResolvedCommonOptions,
    ) -> (plan: ChildPlan<F, R>)
        ensures
            plan.slot == (SlotCell { options: Some(options), ..slot }),
            plan.construction == construction,
            plan.options == options,
    {
        let mut slot = slot;
        slot.options = Some(options);
        ChildPlan { slot, construction, options }
    }
}

/// A lowered scope.
#[derive(Debug)]
pub struct ScopePlan<F, R> {
    /// The scope.
    pub root: ScopeCell,
    /// What it declares about itself.
    pub config: ScopeConfig,
    /// The defaults its children inherit.
    pub defaults: ResolvedDefaults,
    /// Its children, in declaration order.
    pub children: Vec<ChildPlan<F, R>>,
    /// Whether dropping the plan still has to end what it holds.
    pub armed: bool,
}

/// Why lowering failed.
#[derive(Debug)]
pub enum LowerError {
    /// These children have no definition.
    Undefined {
        /// Their ids, in declaration order.
        paths: Vec<ChildId>,
    },
    /// A policy is invalid.
    InvalidPolicy(InvalidPolicy),
    /// The stable scope has no membership left for this child.
    IdentityExhausted {
        /// The child's id.
        id: ChildId,
    },
}

/// A failed lowering: everything declared has ended, and the definitions are to
/// be destroyed.
#[derive(Debug)]
pub struct LowerFailure<F, R> {
    /// Why it failed.
    pub error: LowerError,
    /// Definitions to destroy, in declaration order.
    pub definitions: Vec<ChildConstruction<F, R>>,
    /// The declaration, ended.
    pub builder: BuilderCore<F, R>,
    /// The stable scope the declaration was to be lowered into.
    pub stable: Option<ScopeCell>,
}

/// The ids and memberships of slots.
pub open spec fn members_of<F, R>(slots: Seq<SlotCell<F, R>>) -> Seq<(Seq<char>, Membership)> {
    slots.map_values(|slot: SlotCell<F, R>| (slot.member.id@, slot.member.membership))
}

/// Whether every id is there once and none is empty.
pub open spec fn ids_are_distinct<F, R>(slots: Seq<SlotCell<F, R>>) -> bool {
    &&& forall|i: int|
        0 <= i < slots.len() ==> (#[trigger] slots[i]).member.id@.len() > 0
    &&& forall|i: int, j: int|
        0 <= i < j < slots.len() ==> (#[trigger] slots[i]).member.id@ != (
        #[trigger] slots[j]).member.id@
}

/// The ids of the slots without a definition, in order.
pub open spec fn undefined_ids<F, R>(slots: Seq<SlotCell<F, R>>) -> Seq<Seq<char>>
    decreases slots.len(),
{
    if slots.len() == 0 {
        seq![]
    } else if slots.last().definition is Undefined {
        undefined_ids(slots.drop_last()).push(slots.last().member.id@)
    } else {
        undefined_ids(slots.drop_last())
    }
}

/// The definitions of slots, in order.
pub open spec fn definitions_of<F, R>(slots: Seq<SlotCell<F, R>>) -> Seq<ChildConstruction<F, R>>
    decreases slots.len(),
{
    if slots.len() == 0 {
        seq![]
    } else {
        match slots.last().definition {
            DefinitionState::Defined(construction) => definitions_of(slots.drop_last()).push(
                construction,
            ),
            _ => definitions_of(slots.drop_last()),
        }
    }
}

/// The first slot whose policy is invalid under `defaults`.
pub open spec fn first_invalid<F, R>(
    slots: Seq<SlotCell<F, R>>,
    defaults: ResolvedDefaults,
) -> Option<int>
    decreases slots.len(),
{
    if slots.len() == 0 {
        None
    } else {
        match first_invalid(slots.drop_last(), defaults) {
            Some(i) => Some(i),
            None => match slots.last().definition {
                DefinitionState::Defined(construction) => if construction.fault(defaults) is Some {
                    Some(slots.len() - 1)
                } else {
                    None
                },
                _ => None,
            },
        }
    }
}

/// What fitting slots into a stable scope comes to, one after the other.
#[verifier::ext_equal]
pub struct Fitting {
    /// The scope's lines.
    pub lines: Lines,
    /// The slots' memberships; from the one that failed on, those they had.
    pub members: Seq<Membership>,
    /// The slot for which no membership was left.
    pub stuck: Option<int>,
}

/// What fitting `members` into `lines` comes to.
pub open spec fn fitting(lines: Lines, members: Seq<(Seq<char>, Membership)>) -> Fitting
    decreases members.len(),
{
    if members.len() == 0 {
        Fitting { lines, members: seq![], stuck: None }
    } else {
        let before = fitting(lines, members.drop_last());
        let (id, offered) = members.last();
        if before.stuck is Some {
            Fitting { members: before.members.push(offered), ..before }
        } else {
            match fitted(before.lines, id, offered) {
                Some(membership) => Fitting {
                    lines: before.lines.insert(id, membership),
                    members: before.members.push(membership),
                    stuck: None,
                },
                None => Fitting {
                    members: before.members.push(offered),
                    stuck: Some(members.len() - 1),
                    ..before
                },
            }
        }
    }
}

/// The lines once every one of `members` was evicted.
pub open spec fn all_evicted(lines: Lines, members: Seq<(Seq<char>, Membership)>) -> Lines
    decreases members.len(),
{
    if members.len() == 0 {
        lines
    } else {
        evicted(
            all_evicted(lines, members.drop_last()),
            members.last().0,
            members.last().1,
        )
    }
}

/// Slots with the memberships `members`.
pub open spec fn rebased<F, R>(
    slots: Seq<SlotCell<F, R>>,
    members: Seq<Membership>,
) -> Seq<SlotCell<F, R>> {
    Seq::new(
        slots.len(),
        |i: int|
            SlotCell {
                member: MemberCell { membership: members[i], ..slots[i].member },
                ..slots[i]
            },
    )
}

/// Slots that ended, their definitions claimed.
pub open spec fn all_ended<F, R>(slots: Seq<SlotCell<F, R>>) -> Seq<SlotCell<F, R>> {
    slots.map_values(
        |slot: SlotCell<F, R>|
            SlotCell {
                definition: if slot.definition is Defined {
                    DefinitionState::Lowered
                } else {
                    slot.definition
                },
                terminal: ended(slot.terminal),
                ..slot
            },
    )
}

impl<F, R> BuilderCore<F, R> {
    /// What holds of every declaration.
    pub open spec fn wf(&self) -> bool {
        &&& ids_are_distinct(self.slots@)
        &&& forall|i: int|
            0 <= i < self.slots@.len() ==> !((#[trigger] self.slots@[i]).definition is Lowered)
    }

    /// A declaration of a scope in its own slot. The root membership is the
    /// first of a fresh lineage; `None` once lineages are spent.
    pub fn new(flavor: ScopeFlavor, root_id: ChildId, slot: u64, lineages: &mut LineageSource) -> (builder:
        Option<BuilderCore<F, R>>)
        ensures
            builder is Some <==> old(lineages)@ < u64::MAX,
            final(lineages)@ == if builder is Some {
                (old(lineages)@ + 1) as u64
            } else {
                old(lineages)@
            },
            builder matches Some(made) ==> {
                &&& made.wf()
                &&& made.slots@.len() == 0
                &&& made.root.identity@ == Lines::empty()
                &&& made.root.member.id == root_id
                &&& made.root.member.slot == slot
                &&& made.root.member.membership == (Membership {
                    lineage: (old(lineages)@ + 1) as u64,
                    generation: 0,
                })
                &&& made.root.flavor == flavor
                &&& made.root.intensity is None
                &&& made.root.terminal is None
                &&& made.config.intensity.max_restarts == 5
                &&& made.config.intensity.within@ == 30 * 1_000_000_000
                &&& made.config.defaults.child_restart is None
                &&& made.config.defaults.child_shutdown is None
                &&& made.config.defaults.mailbox is None
                &&& made.config.defaults.mailbox_shutdown is None
                &&& made.config.defaults.readiness_deadline is None
            },
    {
        let mut root_identity = ScopeIdentity::new();
        match root_identity.mint_membership(&root_id, lineages) {
            None => None,
            Some(membership) => {
                let member = MemberCell::new(slot, root_id, membership);
                Some(
                    BuilderCore {
                        root: ScopeCell::new(member, flavor, ScopeIdentity::new()),
                        config: ScopeConfig {
                            intensity: Intensity::default(),
                            defaults: ScopeDefaults::default(),
                        },
                        slots: Vec::new(),
                    },
                )
            },
        }
    }

    /// Sets the restart budget.
    pub fn set_intensity(&mut self, intensity: Intensity)
        ensures
            *final(self) == (BuilderCore {
                config: ScopeConfig { intensity, ..old(self).config },
                ..*old(self)
            }),
    {
        self.config.intensity = intensity;
    }

    /// Sets the children's defaults.
    pub fn set_defaults(&mut self, defaults: ScopeDefaults)
        ensures
            *final(self) == (BuilderCore {
                config: ScopeConfig { defaults, ..old(self).config },
                ..*old(self)
            }),
    {
        self.config.defaults = defaults;
    }

    /// Whether a slot has this id.
    pub open spec fn declares(&self, id: Seq<char>) -> bool {
        exists|i: int| 0 <= i < self.slots@.len() && (#[trigger] self.slots@[i]).member.id@ == id
    }

    /// Whether a slot has this id.
    fn has_id(&self, id: &ChildId) -> (declared: bool)
        ensures
            declared == self.declares(id@),
    {
        let mut index: usize = 0;
        while index < self.slots.len()
            invariant
                index <= self.slots@.len(),
                forall|i: int| 0 <= i < index ==> (#[trigger] self.slots@[i]).member.id@ != id@,
            decreases self.slots@.len() - index,
        {
            if self.slots[index].member.id.same(id) {
                return true;
            }
            index = index + 1;
        }
        false
    }

    /// Reserves a slot for a child; reports its place.
    pub fn reserve(
        &mut self,
        id: ChildId,
        slot: u64,
        scope: Option<ScopeFlavor>,
        lineages: &mut LineageSource,
    ) -> (reserved: Result<usize, ReserveError>)
        requires
            old(self).wf(),
        ensures
            final(self).wf(),
            reserved == if id@.len() == 0 {
                Err::<usize, ReserveError>(ReserveError::EmptyId)
            } else if old(self).declares(id@) {
                Err::<usize, ReserveError>(ReserveError::DuplicateId(id))
            } else if minted(old(self).root.identity@, id@, old(lineages)@) is None {
                Err::<usize, ReserveError>(ReserveError::IdentityExhausted)
            } else {
                Ok::<usize, ReserveError>(old(self).slots@.len() as usize)
            },
            reserved is Err ==> {
                &&& final(self).slots@ == old(self).slots@
                &&& final(self).root.identity@ == old(self).root.identity@
                &&& final(lineages)@ == old(lineages)@
            },
            reserved is Ok ==> {
                let membership = minted(
                    old(self).root.identity@,
                    id@,
                    old(lineages)@,
                )->Some_0;
                &&& final(self).slots@ == old(self).slots@.push(
                    SlotCell {
                        member: MemberCell { slot, id, membership },
                        scope,
                        definition: DefinitionState::Undefined,
                        options: None,
                        terminal: None,
                    },
                )
                &&& final(self).root.identity@ == old(self).root.identity@.insert(id@, membership)
                &&& final(lineages)@ == if old(self).root.identity@.dom().contains(id@) {
                    old(lineages)@
                } else {
                    (old(lineages)@ + 1) as u64
                }
            },
            final(self).config == old(self).config,
            final(self).root == (ScopeCell {
                identity: final(self).root.identity,
                ..old(self).root
            }),
    {
        let id = match checked_id(id) {
            Ok(id) => id,
            Err(error) => {
                return Err(error);
            },
        };
        if self.has_id(&id) {
            return Err(ReserveError::DuplicateId(id));
        }
        let place: usize = self.slots.len();
        match mint_reserved_slot(&mut self.root, &id, slot, scope, lineages) {
            Err(error) => Err(error),
            Ok(made) => {
                self.slots.push(made);
                Ok(place)
            },
        }
    }

    /// The ids of the slots without a definition.
    fn undefined(&self) -> (paths: Vec<ChildId>)
        ensures
            path_ids(paths@) == undefined_ids(self.slots@),
    {
        let mut paths: Vec<ChildId> = Vec::new();
        let mut index: usize = 0;
        proof {
            assert(path_ids(paths@) =~= undefined_ids(self.slots@.take(0)));
        }
        while index < self.slots.len()
            invariant
                index <= self.slots@.len(),
                path_ids(paths@) == undefined_ids(self.slots@.take(index as int)),
            decreases self.slots@.len() - index,
        {
            let ghost before = paths@;
            proof {
                assert(self.slots@.take(index + 1).drop_last() =~= self.slots@.take(index as int));
                assert(self.slots@.take(index + 1).last() == self.slots@[index as int]);
            }
            if self.slots[index].is_undefined() {
                let id = self.slots[index].member.id.clone();
                paths.push(id);
                proof {
                    assert(path_ids(paths@) =~= path_ids(before).push(id@));
                }
            }
            index = index + 1;
        }
        proof {
            assert(self.slots@.take(index as int) =~= self.slots@);
        }
        paths
    }

    /// The defaults the children inherit, and each defined child's options.
    pub fn resolve_policies(&self, inherited: &ResolvedDefaults) -> (resolved: Result<
        (ResolvedDefaults, Vec<Option<ResolvedCommonOptions>>),
        InvalidPolicy,
    >)
        ensures
            ({
                let fault = inherited.overlay_fault(self.config.defaults);
                let defaults = inherited.overlaid(self.config.defaults);
                &&& resolved is Err <==> fault is Some || first_invalid(
                    self.slots@,
                    defaults,
                ) is Some
                &&& resolved matches Err(invalid) ==> if fault is Some {
                    &&& invalid.path@.len() == 0
                    &&& fault == Some((invalid.field, invalid.error))
                } else {
                    names_invalid(self.slots@, defaults, invalid)
                }
                &&& resolved matches Ok((found, options)) ==> {
                    &&& found == defaults
                    &&& options@.len() == self.slots@.len()
                    &&& forall|i: int|
                        0 <= i < options@.len() ==> #[trigger] options@[i] == resolved_slot(
                            self.slots@[i],
                            defaults,
                        )
                }
            }),
    {
        let defaults = match inherited.overlay(&self.config.defaults) {
            Ok(defaults) => defaults,
            Err(invalid) => {
                return Err(invalid);
            },
        };
        let mut options: Vec<Option<ResolvedCommonOptions>> = Vec::new();
        let mut index: usize = 0;
        while index < self.slots.len()
            invariant
                index <= self.slots@.len(),
                options@.len() == index,
                inherited.overlay_fault(self.config.defaults) is None,
                defaults == inherited.overlaid(self.config.defaults),
                first_invalid(self.slots@.take(index as int), defaults) is None,
                forall|i: int|
                    0 <= i < index ==> #[trigger] options@[i] == resolved_slot(
                        self.slots@[i],
                        defaults,
                    ),
            decreases self.slots@.len() - index,
        {
            proof {
                assert(self.slots@.take(index + 1).drop_last() =~= self.slots@.take(index as int));
                assert(self.slots@.take(index + 1).last() == self.slots@[index as int]);
            }
            match self.slots[index].resolve_policy(&defaults) {
                None => options.push(None),
                Some(Ok(found)) => options.push(Some(found)),
                Some(Err(invalid)) => {
                    proof {
                        lemma_first_invalid(self.slots@, defaults, index as int);
                    }
                    let named = invalid.prepend(&self.slots[index].member.id);
                    proof {
                        assert(path_ids(invalid.path@) =~= seq![]);
                        assert(path_ids(named.path@) =~= seq![
                            self.slots@[index as int].member.id@,
                        ]);
                    }
                    return Err(named);
                },
            }
            index = index + 1;
        }
        proof {
            assert(self.slots@.take(index as int) =~= self.slots@);
        }
        Ok((defaults, options))
    }
}

/// A defined slot's options under `defaults`.
pub open spec fn resolved_slot<F, R>(slot: SlotCell<F, R>, defaults: ResolvedDefaults) -> Option<
    ResolvedCommonOptions,
> {
    match slot.definition {
        DefinitionState::Defined(construction) => Some(construction.resolved(defaults)),
        _ => None,
    }
}

/// Whether `invalid` names the first slot whose policy is invalid, and what is
/// wrong with it.
pub open spec fn names_invalid<F, R>(
    slots: Seq<SlotCell<F, R>>,
    defaults: ResolvedDefaults,
    invalid: InvalidPolicy,
) -> bool {
    &&& first_invalid(slots, defaults) is Some
    &&& {
        let slot = slots[first_invalid(slots, defaults)->Some_0];
        &&& path_ids(invalid.path@) == seq![slot.member.id@]
        &&& slot.definition matches DefinitionState::Defined(construction) && construction.fault(
            defaults,
        ) == Some((invalid.field, invalid.error))
    }
}

/// The first invalid slot of a prefix is that of the whole.
proof fn lemma_first_invalid<F, R>(
    slots: Seq<SlotCell<F, R>>,
    defaults: ResolvedDefaults,
    index: int,
)
    requires
        0 <= index < slots.len(),
        first_invalid(slots.take(index), defaults) is None,
        slots[index].definition matches DefinitionState::Defined(construction)
            && construction.fault(defaults) is Some,
    ensures
        first_invalid(slots, defaults) == Some(index),
    decreases slots.len(),
{
    if slots.len() == index + 1 {
        assert(slots.drop_last() =~= slots.take(index));
    } else {
        let fewer = slots.drop_last();
        assert(fewer.take(index) =~= slots.take(index));
        lemma_first_invalid(fewer, defaults, index);
    }
}

/// Where no id is listed as undefined, no slot is.
proof fn lemma_all_defined<F, R>(slots: Seq<SlotCell<F, R>>)
    requires
        undefined_ids(slots).len() == 0,
    ensures
        forall|i: int| 0 <= i < slots.len() ==> !((#[trigger] slots[i]).definition is Undefined),
    decreases slots.len(),
{
    if slots.len() > 0 {
        let fewer = slots.drop_last();
        lemma_all_defined(fewer);
        assert forall|i: int| 0 <= i < slots.len() implies !((
        #[trigger] slots[i]).definition is Undefined) by {
            if i < fewer.len() {
                assert(fewer[i] == slots[i]);
            }
        }
    }
}

/// Ends every slot, forgetting its line in `owner`.
fn end_slots<F, R>(slots: &mut Vec<SlotCell<F, R>>, owner: &mut ScopeCell)
    ensures
        final(slots)@.len() == old(slots)@.len(),
        forall|i: int|
            0 <= i < old(slots)@.len() ==> #[trigger] final(slots)@[i] == (SlotCell {
                terminal: ended(old(slots)@[i].terminal),
                ..old(slots)@[i]
            }),
        final(owner).identity@ == all_evicted(old(owner).identity@, members_of(old(slots)@)),
        *final(owner) == (ScopeCell { identity: final(owner).identity, ..*old(owner) }),
{
    let ghost all = slots@;
    let ghost members = members_of(all);
    let mut index: usize = 0;
    while index < slots.len()
        invariant
            index <= all.len(),
            slots@.len() == all.len(),
            all == old(slots)@,
            members == members_of(all),
            forall|i: int|
                0 <= i < index ==> #[trigger] slots@[i] == (SlotCell {
                    terminal: ended(all[i].terminal),
                    ..all[i]
                }),
            forall|i: int| index <= i < all.len() ==> #[trigger] slots@[i] == all[i],
            owner.identity@ == all_evicted(old(owner).identity@, members.take(index as int)),
            *owner == (ScopeCell { identity: owner.identity, ..*old(owner) }),
        decreases all.len() - index,
    {
        proof {
            assert(members.take(index + 1).drop_last() =~= members.take(index as int));
            assert(members.take(index + 1).last() == (
                all[index as int].member.id@,
                all[index as int].member.membership,
            ));
        }
        let slot = &mut slots[index];
        slot.terminalize_never_started(owner);
        index = index + 1;
    }
    proof {
        assert(members.take(index as int) =~= members);
    }
}

impl<F, R> BuilderCore<F, R> {
    /// Claims every definition, to be destroyed.
    fn begin_failed_disposal(&mut self) -> (definitions: Vec<ChildConstruction<F, R>>)
        ensures
            definitions@ == definitions_of(old(self).slots@),
            final(self).slots@.len() == old(self).slots@.len(),
            forall|i: int|
                0 <= i < old(self).slots@.len() ==> #[trigger] final(self).slots@[i] == (SlotCell {
                    definition: if old(self).slots@[i].definition is Defined {
                        DefinitionState::Lowered
                    } else {
                        old(self).slots@[i].definition
                    },
                    ..old(self).slots@[i]
                }),
            final(self).root == old(self).root,
            final(self).config == old(self).config,
    {
        let ghost all = self.slots@;
        let mut definitions: Vec<ChildConstruction<F, R>> = Vec::new();
        let mut index: usize = 0;
        while index < self.slots.len()
            invariant
                index <= all.len(),
                self.slots@.len() == all.len(),
                all == old(self).slots@,
                forall|i: int|
                    0 <= i < index ==> #[trigger] self.slots@[i] == (SlotCell {
                        definition: if all[i].definition is Defined {
                            DefinitionState::Lowered
                        } else {
                            all[i].definition
                        },
                        ..all[i]
                    }),
                forall|i: int| index <= i < all.len() ==> #[trigger] self.slots@[i] == all[i],
                definitions@ == definitions_of(all.take(index as int)),
                self.root == old(self).root,
                self.config == old(self).config,
            decreases all.len() - index,
        {
            proof {
                assert(all.take(index + 1).drop_last() =~= all.take(index as int));
                assert(all.take(index + 1).last() == all[index as int]);
            }
            let slot = &mut self.slots[index];
            if let Ok(Some(definition)) = slot.take_definition() {
                definitions.push(definition);
            }
            index = index + 1;
        }
        proof {
            assert(all.take(index as int) =~= all);
        }
        definitions
    }

    /// Ends the declaration: every child, then the scope itself. Children's
    /// lines are forgotten where they were entered: in the stable scope once
    /// fitting them in has begun, before that in the declaration's own.
    pub fn terminalize(self, stable: Option<ScopeCell>, adopting: bool) -> (ended_builder: (
        BuilderCore<F, R>,
        Option<ScopeCell>,
    ))
        requires
            adopting ==> stable is Some,
        ensures
            ended_builder.0.slots@.len() == self.slots@.len(),
            forall|i: int|
                0 <= i < self.slots@.len() ==> #[trigger] ended_builder.0.slots@[i] == (SlotCell {
                    terminal: ended(self.slots@[i].terminal),
                    ..self.slots@[i]
                }),
            ended_builder.0.root == (ScopeCell {
                identity: ended_builder.0.root.identity,
                terminal: ended(self.root.terminal),
                ..self.root
            }),
            ended_builder.0.config == self.config,
            !adopting ==> {
                &&& ended_builder.1 == stable
                &&& ended_builder.0.root.identity@ == all_evicted(
                    self.root.identity@,
                    members_of(self.slots@),
                )
            },
            adopting ==> {
                &&& ended_builder.0.root.identity@ == self.root.identity@
                &&& ended_builder.1 matches Some(scope) && {
                    &&& scope.identity@ == all_evicted(
                        stable->Some_0.identity@,
                        members_of(self.slots@),
                    )
                    &&& scope == (ScopeCell { identity: scope.identity, ..stable->Some_0 })
                }
            },
    {
        let BuilderCore { root, config, slots } = self;
        let mut root = root;
        let mut slots = slots;
        let mut stable = stable;
        if adopting {
            if let Some(scope) = stable {
                let mut scope = scope;
                end_slots(&mut slots, &mut scope);
                stable = Some(scope);
            }
        } else {
            end_slots(&mut slots, &mut root);
        }
        root.terminalize_never_started();
        (BuilderCore { root, config, slots }, stable)
    }

    /// Ends a declaration that could not be lowered.
    fn fail(self, error: LowerError, stable: Option<ScopeCell>, adopting: bool) -> (failure:
        LowerFailure<F, R>)
        requires
            adopting ==> stable is Some,
        ensures
            failure.error == error,
            failed(self, failure, stable, adopting),
    {
        let mut builder = self;
        let definitions = builder.begin_failed_disposal();
        let ghost disposed = builder.slots@;
        let (builder, stable) = builder.terminalize(stable, adopting);
        proof {
            assert(builder.slots@ =~= all_ended(self.slots@)) by {
                assert forall|i: int| 0 <= i < self.slots@.len() implies #[trigger] builder.slots@[i]
                    == all_ended(self.slots@)[i] by {
                    assert(disposed[i].terminal == self.slots@[i].terminal);
                }
            }
            assert(members_of(disposed) =~= members_of(self.slots@)) by {
                assert forall|i: int| 0 <= i < self.slots@.len() implies #[trigger] members_of(
                    disposed,
                )[i] == members_of(self.slots@)[i] by {
                    assert(disposed[i].member == self.slots@[i].member);
                }
            }
        }
        LowerFailure { error, definitions, builder, stable }
    }
}

/// Whether `failure` is what is left of `builder`, whose children were to be
/// fitted into `stable`.
pub open spec fn failed<F, R>(
    builder: BuilderCore<F, R>,
    failure: LowerFailure<F, R>,
    stable: Option<ScopeCell>,
    adopting: bool,
) -> bool {
    &&& failure.definitions@ == definitions_of(builder.slots@)
    &&& failure.builder.slots@ == all_ended(builder.slots@)
    &&& failure.builder.config == builder.config
    &&& failure.builder.root == (ScopeCell {
        identity: failure.builder.root.identity,
        terminal: ended(builder.root.terminal),
        ..builder.root
    })
    &&& !adopting ==> {
        &&& failure.stable == stable
        &&& failure.builder.root.identity@ == all_evicted(
            builder.root.identity@,
            members_of(builder.slots@),
        )
    }
    &&& adopting ==> {
        &&& failure.builder.root.identity@ == builder.root.identity@
        &&& failure.stable matches Some(scope) && {
            &&& scope.identity@ == all_evicted(
                stable->Some_0.identity@,
                members_of(builder.slots@),
            )
            &&& scope == (ScopeCell { identity: scope.identity, ..stable->Some_0 })
        }
    }
}

/// Fitting in a prefix leaves the memberships after it as they were.
proof fn lemma_fitting_prefix(lines: Lines, members: Seq<(Seq<char>, Membership)>, index: int)
    requires
        0 <= index < members.len(),
        fitting(lines, members.take(index)).stuck is None,
        fitted(
            fitting(lines, members.take(index)).lines,
            members[index].0,
            members[index].1,
        ) is None,
    ensures
        ({
            let all = fitting(lines, members);
            let before = fitting(lines, members.take(index));
            &&& all.stuck == Some(index)
            &&& all.lines == before.lines
            &&& all.members.len() == members.len()
            &&& forall|i: int| 0 <= i < index ==> all.members[i] == before.members[i]
            &&& forall|i: int| index <= i < members.len() ==> all.members[i] == members[i].1
        }),
    decreases members.len(),
{
    lemma_fitting_len(lines, members.take(index));
    if members.len() == index + 1 {
        assert(members.drop_last() =~= members.take(index));
    } else {
        let fewer = members.drop_last();
        assert(fewer.take(index) =~= members.take(index));
        lemma_fitting_prefix(lines, fewer, index);
    }
}

/// There is one membership for each slot fitted in.
proof fn lemma_fitting_len(lines: Lines, members: Seq<(Seq<char>, Membership)>)
    ensures
        fitting(lines, members).members.len() == members.len(),
        fitting(lines, members).stuck matches Some(i) ==> 0 <= i < members.len(),
    decreases members.len(),
{
    if members.len() > 0 {
        lemma_fitting_len(lines, members.drop_last());
    }
}

/// Fits every slot into `stable`, one after the other; reports the slot for
/// which no membership was left.
fn fit_slots<F, R>(slots: &mut Vec<SlotCell<F, R>>, stable: &mut ScopeCell) -> (stuck: Option<
    usize,
>)
    ensures
        ({
            let fit = fitting(old(stable).identity@, members_of(old(slots)@));
            &&& final(slots)@ == rebased(old(slots)@, fit.members)
            &&& final(stable).identity@ == fit.lines
            &&& stuck is Some <==> fit.stuck is Some
            &&& stuck matches Some(i) ==> fit.stuck == Some(i as int) && i < old(slots)@.len()
        }),
        *final(stable) == (ScopeCell { identity: final(stable).identity, ..*old(stable) }),
{
    let ghost all = slots@;
    let ghost members = members_of(all);
    let ghost lines = stable.identity@;
    let mut index: usize = 0;
    proof {
        assert(members.take(0) =~= seq![]);
    }
    while index < slots.len()
        invariant
            index <= all.len(),
            slots@.len() == all.len(),
            all == old(slots)@,
            members == members_of(all),
            lines == old(stable).identity@,
            fitting(lines, members.take(index as int)).stuck is None,
            fitting(lines, members.take(index as int)).members.len() == index,
            stable.identity@ == fitting(lines, members.take(index as int)).lines,
            forall|i: int|
                0 <= i < index ==> #[trigger] slots@[i] == (SlotCell {
                    member: MemberCell {
                        membership: fitting(lines, members.take(index as int)).members[i],
                        ..all[i].member
                    },
                    ..all[i]
                }),
            forall|i: int| index <= i < all.len() ==> #[trigger] slots@[i] == all[i],
            *stable == (ScopeCell { identity: stable.identity, ..*old(stable) }),
        decreases all.len() - index,
    {
        let ghost before = fitting(lines, members.take(index as int));
        proof {
            assert(members.take(index + 1).drop_last() =~= members.take(index as int));
            assert(members.take(index + 1).last() == members[index as int]);
            assert(members[index as int] == (
                all[index as int].member.id@,
                all[index as int].member.membership,
            ));
        }
        let slot = &mut slots[index];
        match stable.identity.adopt_or_mint_membership(&slot.member.id, slot.member.membership) {
            MembershipReconciliation::Adopted => {},
            MembershipReconciliation::Minted(membership) => {
                slot.member.rebase(membership);
            },
            MembershipReconciliation::Exhausted => {
                proof {
                    lemma_fitting_prefix(lines, members, index as int);
                    let fit = fitting(lines, members);
                    assert(slots@ =~= rebased(all, fit.members)) by {
                        assert forall|i: int| 0 <= i < all.len() implies #[trigger] slots@[i]
                            == rebased(all, fit.members)[i] by {
                            if i >= index {
                                assert(fit.members[i] == members[i].1);
                            }
                        }
                    }
                }
                return Some(index);
            },
        }
        proof {
            let after = fitting(lines, members.take(index + 1));
            assert(after.members.drop_last() =~= before.members);
            assert forall|i: int| 0 <= i < index implies after.members[i] == #[trigger] before.members[i] by {
                assert(after.members.drop_last()[i] == before.members[i]);
            }
        }
        index = index + 1;
    }
    proof {
        assert(members.take(index as int) =~= members);
        assert(slots@ =~= rebased(all, fitting(lines, members).members));
    }
    None
}

/// Whether `plan` is what the declared slots lower to.
pub open spec fn planned<F, R>(
    slots: Seq<SlotCell<F, R>>,
    children: Seq<ChildPlan<F, R>>,
    defaults: ResolvedDefaults,
) -> bool {
    &&& children.len() == slots.len()
    &&& forall|i: int|
        0 <= i < slots.len() ==> {
            let child = #[trigger] children[i];
            &&& slots[i].definition matches DefinitionState::Defined(construction) && {
                &&& child.construction == construction
                &&& child.options == construction.resolved(defaults)
            }
            &&& child.slot == (SlotCell {
                definition: DefinitionState::Lowered,
                options: Some(child.options),
                ..slots[i]
            })
        }
}

/// Claims every slot's definition for its plan.
fn plan_slots<F, R>(
    slots: Vec<SlotCell<F, R>>,
    options: &Vec<Option<ResolvedCommonOptions>>,
    Ghost(defaults): Ghost<ResolvedDefaults>,
) -> (children: Vec<ChildPlan<F, R>>)
    requires
        options@.len() == slots@.len(),
        forall|i: int| 0 <= i < slots@.len() ==> (#[trigger] slots@[i]).definition is Defined,
        forall|i: int|
            0 <= i < slots@.len() ==> #[trigger] options@[i] == resolved_slot(slots@[i], defaults),
    ensures
        planned(slots@, children@, defaults),
{
    let ghost all = slots@;
    let mut children: Vec<ChildPlan<F, R>> = Vec::new();
    for slot in iter: slots
        invariant
            iter.seq() == all,
            children@.len() == iter.index(),
            options@.len() == all.len(),
            planned(all.take(iter.index() as int), children@, defaults),
            forall|i: int| 0 <= i < all.len() ==> (#[trigger] all[i]).definition is Defined,
            forall|i: int|
                0 <= i < all.len() ==> #[trigger] options@[i] == resolved_slot(all[i], defaults),
    {
        let place: usize = children.len();
        let ghost before = children@;
        let mut slot = slot;
        proof {
            assert(slot == all[place as int]);
            assert(slot.definition is Defined);
            assert(options@[place as int] == resolved_slot(all[place as int], defaults));
        }
        let claimed = slot.take_definition();
        match (claimed, options[place]) {
            (Ok(Some(construction)), Some(resolved)) => {
                children.push(ChildPlan::with_options(slot, construction, resolved));
            },
            _ => {
                vstd::pervasive::unreached::<()>();
            },
        }
        proof {
            assert forall|i: int| 0 <= i < place implies children@[i] == #[trigger] before[i] by {}
            let prefix = all.take(place + 1);
            assert forall|i: int| 0 <= i < prefix.len() implies {
                let child = #[trigger] children@[i];
                &&& prefix[i].definition matches DefinitionState::Defined(construction) && {
                    &&& child.construction == construction
                    &&& child.options == construction.resolved(defaults)
                }
                &&& child.slot == (SlotCell {
                    definition: DefinitionState::Lowered,
                    options: Some(child.options),
                    ..prefix[i]
                })
            } by {
                if i < place {
                    assert(before[i] == children@[i]);
                    assert(all.take(place as int)[i] == prefix[i]);
                }
            }
        }
    }
    proof {
        assert(all.take(all.len() as int) =~= all);
    }
    children
}

impl<F, R> BuilderCore<F, R> {
    /// The declaration with its children's memberships fitted into `stable`.
    pub open spec fn fitted_slots(&self, stable: ScopeCell) -> Seq<SlotCell<F, R>> {
        rebased(
            self.slots@,
            fitting(stable.identity@, members_of(self.slots@)).members,
        )
    }

    /// Lowers the declaration: every child is defined, every policy valid, and,
    /// where the declaration is lowered into a stable scope, every child fitted
    /// into it. Else everything declared ends.
    pub fn lower(self, inherited: &ResolvedDefaults, root_override: Option<ScopeCell>) -> (lowered:
        Result<ScopePlan<F, R>, LowerFailure<F, R>>)
        requires
            self.wf(),
        ensures
            ({
                let slots = self.slots@;
                let undefined = undefined_ids(slots);
                let fault = inherited.overlay_fault(self.config.defaults);
                let defaults = inherited.overlaid(self.config.defaults);
                if undefined.len() > 0 {
                    lowered matches Err(failure) && {
                        &&& failure.error matches LowerError::Undefined { paths } && path_ids(
                            paths@,
                        ) == undefined
                        &&& failed(self, failure, root_override, false)
                    }
                } else if fault is Some {
                    lowered matches Err(failure) && {
                        &&& failure.error matches LowerError::InvalidPolicy(invalid) && {
                            &&& invalid.path@.len() == 0
                            &&& fault == Some((invalid.field, invalid.error))
                        }
                        &&& failed(self, failure, root_override, false)
                    }
                } else if first_invalid(slots, defaults) is Some {
                    lowered matches Err(failure) && {
                        &&& failure.error matches LowerError::InvalidPolicy(invalid)
                            && names_invalid(slots, defaults, invalid)
                        &&& failed(self, failure, root_override, false)
                    }
                } else {
                    match root_override {
                        None => lowered matches Ok(plan) && {
                            &&& planned(slots, plan.children@, defaults)
                            &&& plan.root == (ScopeCell {
                                intensity: Some(self.config.intensity),
                                ..self.root
                            })
                            &&& plan.config == self.config
                            &&& plan.defaults == defaults
                            &&& plan.armed
                        },
                        Some(stable) => {
                            let fit = fitting(stable.identity@, members_of(slots));
                            match fit.stuck {
                                Some(i) => lowered matches Err(failure) && {
                                    &&& failure.error matches LowerError::IdentityExhausted { id }
                                        && id == slots[i].member.id
                                    &&& failure.definitions@ == definitions_of(slots)
                                    &&& failure.builder.slots@ == all_ended(
                                        self.fitted_slots(stable),
                                    )
                                    &&& failure.builder.config == self.config
                                    &&& failure.builder.root.identity@ == self.root.identity@
                                    &&& failure.builder.root == (ScopeCell {
                                        identity: failure.builder.root.identity,
                                        terminal: ended(self.root.terminal),
                                        ..self.root
                                    })
                                    &&& failure.stable matches Some(scope) && {
                                        &&& scope.identity@ == all_evicted(
                                            fit.lines,
                                            members_of(self.fitted_slots(stable)),
                                        )
                                        &&& scope == (ScopeCell {
                                            identity: scope.identity,
                                            ..stable
                                        })
                                    }
                                },
                                None => lowered matches Ok(plan) && {
                                    &&& planned(
                                        self.fitted_slots(stable),
                                        plan.children@,
                                        defaults,
                                    )
                                    &&& plan.root.identity@ == fit.lines
                                    &&& plan.root == (ScopeCell {
                                        identity: plan.root.identity,
                                        intensity: Some(self.config.intensity),
                                        ..stable
                                    })
                                    &&& plan.config == self.config
                                    &&& plan.defaults == defaults
                                    &&& plan.armed
                                },
                            }
                        },
                    }
                }
            }),
    {
        let undefined = self.undefined();
        proof {
            assert(path_ids(undefined@).len() == undefined@.len());
        }
        if undefined.len() > 0 {
            return Err(self.fail(LowerError::Undefined { paths: undefined }, root_override, false));
        }
        let (defaults, options) = match self.resolve_policies(inherited) {
            Ok(resolved) => resolved,
            Err(invalid) => {
                return Err(self.fail(LowerError::InvalidPolicy(invalid), root_override, false));
            },
        };
        proof {
            lemma_all_defined(self.slots@);
        }
        let BuilderCore { root, config, slots } = self;
        let mut slots = slots;
        let mut scope = root;
        if let Some(stable) = root_override {
            let mut stable = stable;
            let ghost declared = slots@;
            let stuck = fit_slots(&mut slots, &mut stable);
            proof {
                lemma_fitting_len(root_override->Some_0.identity@, members_of(declared));
            }
            if let Some(place) = stuck {
                let id = slots[place].member.id.clone();
                let builder = BuilderCore { root: scope, config, slots };
                proof {
                    lemma_rebased_definitions(
                        declared,
                        fitting(
                            root_override->Some_0.identity@,
                            members_of(declared),
                        ).members,
                    );
                }
                return Err(
                    builder.fail(LowerError::IdentityExhausted { id }, Some(stable), true),
                );
            }
            scope = stable;
        }
        scope.intensity = Some(config.intensity);
        let children = plan_slots(slots, &options, Ghost(defaults));
        Ok(ScopePlan { root: scope, config, defaults, children, armed: true })
    }
}

/// Rebasing memberships changes no definition.
proof fn lemma_rebased_definitions<F, R>(slots: Seq<SlotCell<F, R>>, members: Seq<Membership>)
    ensures
        definitions_of(rebased(slots, members)) == definitions_of(slots),
    decreases slots.len(),
{
    if slots.len() > 0 {
        assert(rebased(slots, members).drop_last() =~= rebased(slots.drop_last(), members));
        lemma_rebased_definitions(slots.drop_last(), members);
    }
}

impl<F, R> ScopePlan<F, R> {
    /// The scope's restart budget.
    pub fn intensity_policy(&self) -> (intensity: Intensity)
        ensures
            intensity == self.config.intensity,
    {
        self.config.intensity
    }

    /// Hands over the next child, which then answers for its own end.
    pub fn take_child(&mut self) -> (child: Option<ChildPlan<F, R>>)
        ensures
            old(self).children@.len() == 0 ==> child is None && *final(self) == *old(self),
            old(self).children@.len() > 0 ==> {
                &&& child == Some(old(self).children@[0])
                &&& final(self).children@ == old(self).children@.skip(1)
                &&& *final(self) == (ScopePlan { children: final(self).children, ..*old(self) })
            },
    {
        if self.children.len() == 0 {
            return None;
        }
        let child = self.children.remove(0);
        proof {
            assert(self.children@ =~= old(self).children@.skip(1));
        }
        Some(child)
    }

    /// Finishes the transfer, once every child answers for its own end: the
    /// scope is all that is left.
    pub fn finish_transfer(self) -> (root: ScopeCell)
        requires
            self.children@.len() == 0,
            self.armed,
        ensures
            root == self.root,
    {
        self.root
    }

    /// Drops a plan that was not transferred: every child ends, its line is
    /// forgotten, and then the scope ends. A transferred one leaves things as
    /// they are.
    pub fn terminalize(self) -> (ended_plan: ScopePlan<F, R>)
        ensures
            !self.armed ==> ended_plan == self,
            self.armed ==> {
                let slots = self.children@.map_values(|child: ChildPlan<F, R>| child.slot);
                &&& !ended_plan.armed
                &&& ended_plan.root == (ScopeCell {
                    identity: ended_plan.root.identity,
                    terminal: ended(self.root.terminal),
                    ..self.root
                })
                &&& ended_plan.root.identity@ == all_evicted(
                    self.root.identity@,
                    members_of(slots),
                )
                &&& ended_plan.children@ == self.children@.map_values(
                    |child: ChildPlan<F, R>|
                        ChildPlan {
                            slot: SlotCell {
                                terminal: ended(child.slot.terminal),
                                ..child.slot
                            },
                            ..child
                        },
                )
                &&& ended_plan.config == self.config
                &&& ended_plan.defaults == self.defaults
            },
    {
        if !self.armed {
            return self;
        }
        let mut plan = self;
        plan.armed = false;
        let ghost all = plan.children@;
        let ghost slots = all.map_values(|child: ChildPlan<F, R>| child.slot);
        let ghost members = members_of(slots);
        let mut index: usize = 0;
        while index < plan.children.len()
            invariant
                index <= all.len(),
                plan.children@.len() == all.len(),
                all == self.children@,
                slots == all.map_values(|child: ChildPlan<F, R>| child.slot),
                members == members_of(slots),
                forall|i: int|
                    0 <= i < index ==> #[trigger] plan.children@[i] == (ChildPlan {
                        slot: SlotCell { terminal: ended(all[i].slot.terminal), ..all[i].slot },
                        ..all[i]
                    }),
                forall|i: int| index <= i < all.len() ==> #[trigger] plan.children@[i] == all[i],
                plan.root.identity@ == all_evicted(
                    self.root.identity@,
                    members.take(index as int),
                ),
                plan.root == (ScopeCell { identity: plan.root.identity, ..self.root }),
                !plan.armed,
                plan.config == self.config,
                plan.defaults == self.defaults,
            decreases all.len() - index,
        {
            proof {
                assert(members.take(index + 1).drop_last() =~= members.take(index as int));
                assert(members.take(index + 1).last() == (
                    all[index as int].slot.member.id@,
                    all[index as int].slot.member.membership,
                ));
            }
            let child = &mut plan.children[index];
            child.slot.terminalize_never_started(&mut plan.root);
            index = index + 1;
        }
        proof {
            assert(members.take(index as int) =~= members);
            assert(plan.children@ =~= all.map_values(
                |child: ChildPlan<F, R>|
                    ChildPlan {
                        slot: SlotCell { terminal: ended(child.slot.terminal), ..child.slot },
                        ..child
                    },
            ));
        }
        plan.root.terminalize_never_started();
        plan
    }
}

/// Whether every id is there once.
pub open spec fn named_once(members: Seq<(Seq<char>, Membership)>) -> bool {
    forall|i: int, j: int|
        0 <= i < j < members.len() ==> (#[trigger] members[i]).0 != (#[trigger] members[j]).0
}

/// What was fitted in is each id's newest membership.
proof fn lemma_fitted_is_newest(lines: Lines, members: Seq<(Seq<char>, Membership)>, i: int)
    requires
        named_once(members),
        0 <= i < members.len(),
        fitting(lines, members).stuck matches Some(stuck) ==> i < stuck,
    ensures
        ({
            let fit = fitting(lines, members);
            &&& fit.lines.dom().contains(members[i].0)
            &&& fit.lines[members[i].0] == fit.members[i]
            &&& fitted(lines, members[i].0, members[i].1) == Some(fit.members[i])
        }),
    decreases members.len(),
{
    let fewer = members.drop_last();
    lemma_fitting_len(lines, fewer);
    assert forall|a: int, b: int| 0 <= a < b < fewer.len() implies (#[trigger] fewer[a]).0 != (
    #[trigger] fewer[b]).0 by {
        assert(fewer[a] == members[a]);
        assert(fewer[b] == members[b]);
    }
    if i < fewer.len() {
        assert(fewer[i] == members[i]);
        assert(members[i].0 != members[members.len() - 1].0);
        lemma_fitted_is_newest(lines, fewer, i);
    } else {
        lemma_fitting_elsewhere(lines, fewer, members[i].0);
    }
}

/// Fitting in leaves other ids' lines as they were.
proof fn lemma_fitting_elsewhere(lines: Lines, members: Seq<(Seq<char>, Membership)>, id: Seq<char>)
    requires
        forall|i: int| 0 <= i < members.len() ==> (#[trigger] members[i]).0 != id,
    ensures
        fitting(lines, members).lines.dom().contains(id) <==> lines.dom().contains(id),
        lines.dom().contains(id) ==> fitting(lines, members).lines[id] == lines[id],
    decreases members.len(),
{
    if members.len() > 0 {
        let fewer = members.drop_last();
        assert forall|i: int| 0 <= i < fewer.len() implies (#[trigger] fewer[i]).0 != id by {
            assert(fewer[i] == members[i]);
        }
        lemma_fitting_elsewhere(lines, fewer, id);
        assert(members[members.len() - 1].0 != id);
    }
}

/// Evicting forgets every newest membership it names.
proof fn lemma_evicted_is_gone(lines: Lines, members: Seq<(Seq<char>, Membership)>, i: int)
    requires
        named_once(members),
        0 <= i < members.len(),
        lines.dom().contains(members[i].0) ==> lines[members[i].0] == members[i].1,
    ensures
        !all_evicted(lines, members).dom().contains(members[i].0),
    decreases members.len(),
{
    let fewer = members.drop_last();
    assert forall|a: int, b: int| 0 <= a < b < fewer.len() implies (#[trigger] fewer[a]).0 != (
    #[trigger] fewer[b]).0 by {
        assert(fewer[a] == members[a]);
        assert(fewer[b] == members[b]);
    }
    if i < fewer.len() {
        assert(fewer[i] == members[i]);
        lemma_evicted_is_gone(lines, fewer, i);
    } else {
        lemma_evicting_elsewhere(lines, fewer, members[i].0);
    }
}

/// Evicting leaves other ids' lines as they were.
proof fn lemma_evicting_elsewhere(lines: Lines, members: Seq<(Seq<char>, Membership)>, id: Seq<char>)
    requires
        forall|i: int| 0 <= i < members.len() ==> (#[trigger] members[i]).0 != id,
    ensures
        all_evicted(lines, members).dom().contains(id) <==> lines.dom().contains(id),
        lines.dom().contains(id) ==> all_evicted(lines, members)[id] == lines[id],
    decreases members.len(),
{
    if members.len() > 0 {
        let fewer = members.drop_last();
        assert forall|i: int| 0 <= i < fewer.len() implies (#[trigger] fewer[i]).0 != id by {
            assert(fewer[i] == members[i]);
        }
        lemma_evicting_elsewhere(lines, fewer, id);
        assert(members[members.len() - 1].0 != id);
    }
}

/// A failed lowering leaves nothing of what it fitted in: the stable scope has
/// no line for those ids, so that a later child of one of them is comparable to
/// neither.
pub proof fn law_a_failed_lowering_forgets_what_it_fitted<F, R>(
    slots: Seq<SlotCell<F, R>>,
    lines: Lines,
    i: int,
)
    requires
        ids_are_distinct(slots),
        fitting(lines, members_of(slots)).stuck matches Some(stuck) && 0 <= i < stuck,
    ensures
        ({
            let fit = fitting(lines, members_of(slots));
            let left = all_evicted(fit.lines, members_of(rebased(slots, fit.members)));
            !left.dom().contains(slots[i].member.id@)
        }),
{
    let members = members_of(slots);
    let fit = fitting(lines, members);
    lemma_fitting_len(lines, members);
    let fitted_members = members_of(rebased(slots, fit.members));
    assert forall|a: int, b: int| 0 <= a < b < members.len() implies (#[trigger] members[a]).0 != (
    #[trigger] members[b]).0 by {
        assert(slots[a].member.id@ != slots[b].member.id@);
    }
    assert forall|a: int, b: int| 0 <= a < b < fitted_members.len() implies (
    #[trigger] fitted_members[a]).0 != (#[trigger] fitted_members[b]).0 by {
        assert(slots[a].member.id@ != slots[b].member.id@);
    }
    lemma_fitted_is_newest(lines, members, i);
    assert(fitted_members[i] == (slots[i].member.id@, fit.members[i]));
    lemma_evicted_is_gone(fit.lines, fitted_members, i);
}

/// A child lowered into a scope that has a line for its id continues that line:
/// its membership supersedes the one before.
pub proof fn law_lowering_continues_the_line<F, R>(
    slots: Seq<SlotCell<F, R>>,
    lines: Lines,
    i: int,
)
    requires
        ids_are_distinct(slots),
        0 <= i < slots.len(),
        fitting(lines, members_of(slots)).stuck is None,
    ensures
        ({
            let fit = fitting(lines, members_of(slots));
            let id = slots[i].member.id@;
            &&& lines.dom().contains(id) ==> fit.members[i].succeeds(lines[id])
            &&& !lines.dom().contains(id) ==> fit.members[i] == slots[i].member.membership
            &&& fit.lines[id] == fit.members[i]
        }),
{
    let members = members_of(slots);
    assert forall|a: int, b: int| 0 <= a < b < members.len() implies (#[trigger] members[a]).0 != (
    #[trigger] members[b]).0 by {
        assert(slots[a].member.id@ != slots[b].member.id@);
    }
    lemma_fitted_is_newest(lines, members, i);
    assert(members[i] == (slots[i].member.id@, slots[i].member.membership));
}

} // verus!
