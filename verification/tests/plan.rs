use shelterwood::identity::{ChildId, LineageSource, Membership, ScopeIdentity};
use shelterwood::mailbox::handle::MemberCell;
use shelterwood::outline::OutlineError;
use shelterwood::plan::{
    checked_id, BuilderCore, ChildConstruction, ChildPlan, DefinitionAlreadyLowered, LowerError,
    OnceTask, ReserveError, ScopeCell, ScopeConstruction, SlotCell, TaskDef,
};
use shelterwood::policy::{
    Backoff, ChildMode, CommonOptions, DefaultsInheritance, Intensity, Jitter, PolicyError,
    PolicyField, Readiness, ReadinessDeadline, ResolvedDefaults, RestartCondition, RestartPolicy,
    Retention, ScopeDefaults, ScopeFlavor, Shutdown,
};
use shelterwood::raw::definition::{DefinitionSource, RawConstruction};
use shelterwood::time::Duration;

type Builder = BuilderCore<&'static str, &'static str>;
type Construction = ChildConstruction<&'static str, &'static str>;
type Slot = SlotCell<&'static str, &'static str>;

fn id(text: &str) -> ChildId {
    ChildId::new(text.to_string())
}

fn builder(flavor: ScopeFlavor, lineages: &mut LineageSource) -> Builder {
    BuilderCore::new(flavor, id("$root"), 0, lineages).expect("lineages are left")
}

fn configured_task() -> Construction {
    ChildConstruction::Task(TaskDef {
        factory: "task",
        options: CommonOptions {
            restart: Some(RestartPolicy::new(RestartCondition::Always, Backoff::Immediate)),
            shutdown: Some(Shutdown::Abort),
            readiness: Some(Readiness::Manual),
            retention: Some(Retention::Remove),
            ..CommonOptions::default()
        },
    })
}

fn plain_task(readiness: Option<Readiness>) -> Construction {
    ChildConstruction::Task(TaskDef {
        factory: "task",
        options: CommonOptions { readiness, ..CommonOptions::default() },
    })
}

fn once_task(readiness: Option<Readiness>) -> Construction {
    ChildConstruction::TaskOnce(OnceTask {
        task: "once",
        options: CommonOptions { readiness, ..CommonOptions::default() },
    })
}

fn raw_construction(options: CommonOptions) -> Construction {
    // The effective mode is resolved against what the actor type declares before the
    // definition is erased.
    let readiness = options.readiness.unwrap_or(Readiness::Manual);
    ChildConstruction::Raw(RawConstruction {
        source: DefinitionSource::Restartable("raw"),
        options,
        readiness,
    })
}

fn scope_construction(options: CommonOptions) -> Construction {
    ChildConstruction::Scope(ScopeConstruction {
        source: DefinitionSource::Restartable("scope"),
        options,
        defaults: DefaultsInheritance::Inherit,
    })
}

fn reserve(builder: &mut Builder, name: &str, lineages: &mut LineageSource) -> usize {
    let slot = builder.slots.len() as u64 + 1;
    builder.reserve(id(name), slot, None, lineages).expect("reservation succeeds")
}

fn two_slot_builder(lineages: &mut LineageSource) -> Builder {
    let mut builder = builder(ScopeFlavor::Ordered, lineages);
    for name in ["first", "second"] {
        let slot = reserve(&mut builder, name, lineages);
        builder.slots[slot].define(configured_task());
    }
    builder
}

#[test]
fn builder_drop_terminalizes_every_slot_and_root() {
    let mut lineages = LineageSource::new();
    let builder = two_slot_builder(&mut lineages);

    let (ended, _stable) = builder.terminalize(None, false);

    for slot in &ended.slots {
        assert!(
            slot.terminal.is_some_and(|exit| !exit.started),
            "builder teardown terminalizes every declared slot"
        );
    }
    assert!(
        ended.root.terminal.is_some(),
        "builder teardown terminalizes its root after every slot"
    );
}

#[test]
fn plan_drop_terminalizes_every_child_and_root() {
    let mut lineages = LineageSource::new();
    let plan = two_slot_builder(&mut lineages)
        .lower(&ResolvedDefaults::default(), None)
        .expect("the defined builder lowers");

    let ended = plan.terminalize();

    for child in &ended.children {
        assert!(
            child.slot.terminal.is_some(),
            "plan teardown terminalizes every transferred child"
        );
    }
    assert!(
        ended.root.terminal.is_some(),
        "plan teardown closes the root after every child"
    );
}

#[test]
fn a_transferred_plan_leaves_its_root_alive() {
    let mut lineages = LineageSource::new();
    let mut plan = two_slot_builder(&mut lineages)
        .lower(&ResolvedDefaults::default(), None)
        .expect("the defined builder lowers");
    assert_eq!(plan.intensity_policy(), Intensity::default());
    let mut names = Vec::new();
    while let Some(child) = plan.take_child() {
        names.push(child.slot.member.id.as_str().to_string());
        assert!(child.slot.terminal.is_none());
    }
    assert_eq!(names, ["first", "second"]);
    let root = plan.finish_transfer();
    assert!(root.terminal.is_none());
}

#[test]
fn static_and_dynamic_constructions_share_option_resolution() {
    let defaults = ResolvedDefaults::default();
    let mut lineages = LineageSource::new();
    let mut declaration = builder(ScopeFlavor::Ordered, &mut lineages);
    let static_slot = reserve(&mut declaration, "static", &mut lineages);
    declaration.slots[static_slot].define(configured_task());
    let static_plan = declaration.lower(&defaults, None).expect("defined declaration lowers");

    let mut admission = builder(ScopeFlavor::Dynamic, &mut lineages);
    let place = reserve(&mut admission, "dynamic", &mut lineages);
    let mut dynamic_slot = admission.slots.remove(place);
    dynamic_slot.define(configured_task());
    let dynamic_options = dynamic_slot
        .resolve_policy(&defaults)
        .expect("dynamic slot is defined")
        .expect("its policy is valid");
    let dynamic_definition = dynamic_slot
        .take_definition()
        .expect("dynamic slot must not already be lowered")
        .expect("dynamic slot remains claimable");
    let dynamic_plan = ChildPlan::with_options(dynamic_slot, dynamic_definition, dynamic_options);

    assert_eq!(static_plan.children[0].options, dynamic_plan.options);
    assert_eq!(dynamic_plan.options.readiness, Readiness::Manual);
}

fn member() -> MemberCell {
    MemberCell::new(1, id("child"), Membership { lineage: 1, generation: 1 })
}

fn resolved_readiness(construction: Construction) -> Readiness {
    let mut slot: Slot = SlotCell::new(member(), None);
    slot.define(construction);
    slot.resolve_policy(&ResolvedDefaults::default())
        .expect("slot is defined")
        .expect("its policy is valid")
        .readiness
}

#[test]
fn resolution_applies_per_kind_readiness_defaults() {
    // Undeclared readiness resolves per construction kind: tasks gate immediately, scopes wait
    // for their startup barrier, and a raw definition carries the mode already resolved at
    // erasure.
    assert_eq!(resolved_readiness(plain_task(None)), Readiness::Immediate);
    assert_eq!(resolved_readiness(once_task(None)), Readiness::Immediate);
    assert_eq!(
        resolved_readiness(scope_construction(CommonOptions::default())),
        Readiness::Manual
    );
    assert_eq!(
        resolved_readiness(raw_construction(CommonOptions::default())),
        Readiness::Manual
    );

    // Task and raw declarations expose readiness overrides. Scope readiness is structural even
    // where the common options name another mode.
    assert_eq!(resolved_readiness(plain_task(Some(Readiness::Manual))), Readiness::Manual);
    assert_eq!(resolved_readiness(once_task(Some(Readiness::Manual))), Readiness::Manual);
    assert_eq!(
        resolved_readiness(scope_construction(CommonOptions {
            readiness: Some(Readiness::Immediate),
            ..CommonOptions::default()
        })),
        Readiness::Manual
    );
    assert_eq!(
        resolved_readiness(raw_construction(CommonOptions {
            readiness: Some(Readiness::Immediate),
            ..CommonOptions::default()
        })),
        Readiness::Immediate
    );
}

#[test]
fn policy_resolution_claims_the_definition_at_once() {
    let mut slot: Slot = SlotCell::new(member(), None);
    assert!(slot.is_undefined());
    assert!(slot.resolve_and_take_defined(&ResolvedDefaults::default()).is_none());
    slot.define(configured_task());
    assert!(!slot.is_undefined());
    assert!(slot.resolve_and_take_defined(&ResolvedDefaults::default()).is_some());
    assert!(
        matches!(slot.take_definition(), Err(DefinitionAlreadyLowered)),
        "removal cannot claim what admission has claimed"
    );
}

#[test]
fn failed_override_lowering_evicts_adopted_lineages_from_the_override() {
    // A stable scope whose identity domain for "exhausted" has no generations left, so adoption
    // of that id must fail after the preceding slot's lineage was already adopted.
    let mut lineages = LineageSource::new();
    let root_id = id("$root");
    let mut root_identity = ScopeIdentity::new();
    let root_membership = root_identity
        .mint_membership(&root_id, &mut lineages)
        .expect("fresh scope identity must mint its root membership");
    let exhausted_id = id("exhausted");
    let mut child_identity = ScopeIdentity::near_exhaustion(exhausted_id.clone(), 7);
    child_identity
        .mint_membership(&exhausted_id, &mut lineages)
        .expect("the final generation is mintable");
    let stable = ScopeCell::new(
        MemberCell::new(9, root_id, root_membership),
        ScopeFlavor::Ordered,
        child_identity,
    );

    let mut declared = builder(ScopeFlavor::Ordered, &mut lineages);
    let adopted = reserve(&mut declared, "adopted", &mut lineages);
    declared.slots[adopted].define(configured_task());
    let adopted_membership = declared.slots[adopted].member.membership;
    let failing = reserve(&mut declared, "exhausted", &mut lineages);
    declared.slots[failing].define(configured_task());

    let Err(failure) = declared.lower(&ResolvedDefaults::default(), Some(stable)) else {
        panic!("the exhausted id fails adoption");
    };
    let LowerError::IdentityExhausted { id: refused } = &failure.error else {
        panic!("partial adoption fails with identity exhaustion");
    };
    assert_eq!(refused.as_str(), "exhausted");
    assert_eq!(failure.definitions.len(), 2, "every definition goes to disposal");
    let stable = failure.stable.expect("the override is handed back");

    // A rebuild reconciles against the same stable scope. The re-added id donates a fresh
    // lineage that is incomparable in both directions.
    let mut rebuild = builder(ScopeFlavor::Ordered, &mut lineages);
    let readded = reserve(&mut rebuild, "adopted", &mut lineages);
    rebuild.slots[readded].define(configured_task());
    let replacement = rebuild
        .lower(&ResolvedDefaults::default(), Some(stable))
        .expect("the rebuild lowers");
    let readded_membership = replacement.children[0].slot.member.membership;
    assert!(
        !readded_membership.supersedes(adopted_membership),
        "a rebuilt membership must not supersede its terminalized predecessor"
    );
    assert!(
        !adopted_membership.supersedes(readded_membership),
        "a terminalized predecessor must not order against its replacement"
    );
}

#[test]
fn lowering_onto_a_stable_scope_continues_the_line() {
    let mut lineages = LineageSource::new();
    let first = two_slot_builder(&mut lineages)
        .lower(&ResolvedDefaults::default(), None)
        .expect("the first declaration lowers");
    let before = first.children[0].slot.member.membership;
    let stable = first.root;
    let second = two_slot_builder(&mut lineages)
        .lower(&ResolvedDefaults::default(), Some(stable))
        .expect("the second declaration lowers");
    let after = second.children[0].slot.member.membership;
    assert!(after.supersedes(before), "the rebuilt child follows its predecessor");
    assert!(!before.supersedes(after));
}

#[test]
fn resolving_one_shot_construction_preserves_its_task() {
    let mut slot: Slot = SlotCell::new(member(), None);
    slot.define(once_task(None));
    let options = slot
        .resolve_policy(&ResolvedDefaults::default())
        .expect("one-shot slot is defined")
        .expect("its policy is valid");
    let construction = slot
        .take_definition()
        .expect("one-shot slot must not already be lowered")
        .expect("one-shot slot remains claimable");
    let plan = ChildPlan::with_options(slot, construction, options);
    assert!(plan.options.restart.is_never());
    assert_eq!(plan.options.retention, Retention::Remove);
    assert!(matches!(
        plan.construction,
        ChildConstruction::TaskOnce(OnceTask { task: "once", .. })
    ));
}

#[test]
fn reservations_want_a_fresh_and_nonempty_name() {
    let mut lineages = LineageSource::new();
    let mut declared = builder(ScopeFlavor::Ordered, &mut lineages);
    assert_eq!(checked_id(id("")), Err(ReserveError::EmptyId));
    assert_eq!(checked_id(id("a")), Ok(id("a")));
    assert_eq!(
        declared.reserve(id(""), 1, None, &mut lineages),
        Err(ReserveError::EmptyId)
    );
    assert_eq!(declared.reserve(id("a"), 1, None, &mut lineages), Ok(0));
    assert_eq!(
        declared.reserve(id("a"), 2, None, &mut lineages),
        Err(ReserveError::DuplicateId(id("a")))
    );
    assert_eq!(declared.reserve(id("b"), 2, None, &mut lineages), Ok(1));
    assert_eq!(declared.slots.len(), 2);
}

#[test]
fn an_exhausted_name_cannot_be_reserved() {
    let mut lineages = LineageSource::new();
    let mut declared = builder(ScopeFlavor::Dynamic, &mut lineages);
    declared.root.identity = ScopeIdentity::near_exhaustion(id("worn"), 3);
    declared
        .root
        .identity
        .mint_membership(&id("worn"), &mut lineages)
        .expect("the final generation is mintable");
    assert_eq!(
        declared.reserve(id("worn"), 1, None, &mut lineages),
        Err(ReserveError::IdentityExhausted)
    );
}

#[test]
fn lowering_names_every_undefined_reservation() {
    let mut lineages = LineageSource::new();
    let mut declared = builder(ScopeFlavor::Ordered, &mut lineages);
    for name in ["a", "b", "c"] {
        reserve(&mut declared, name, &mut lineages);
    }
    declared.slots[1].define(configured_task());
    let Err(failure) = declared.lower(&ResolvedDefaults::default(), None) else {
        panic!("undefined reservations do not lower")
    };
    let LowerError::Undefined { paths } = failure.error else {
        panic!("the failure lists the reservations")
    };
    let names: Vec<&str> = paths.iter().map(|path| path.as_str()).collect();
    assert_eq!(names, ["a", "c"]);
    assert_eq!(failure.definitions.len(), 1);
    assert!(failure.builder.root.terminal.is_some());
}

#[test]
fn lowering_refuses_an_invalid_policy() {
    let mut lineages = LineageSource::new();
    let mut declared = two_slot_builder(&mut lineages);
    declared.set_defaults(ScopeDefaults {
        child_restart: Some(RestartPolicy::new(
            RestartCondition::Always,
            Backoff::Fixed { delay: Duration::zero(), jitter: Jitter::Off },
        )),
        ..ScopeDefaults::default()
    });
    let Err(failure) = declared.lower(&ResolvedDefaults::default(), None) else {
        panic!("a zero backoff does not lower")
    };
    let LowerError::InvalidPolicy(invalid) = failure.error else {
        panic!("the failure names the policy")
    };
    assert_eq!(invalid.field, PolicyField::RestartBackoff);
    assert_eq!(invalid.error, PolicyError::ZeroDuration);
}

#[test]
fn a_declared_intensity_reaches_the_plan() {
    let mut lineages = LineageSource::new();
    let mut declared = two_slot_builder(&mut lineages);
    let intensity = Intensity::new(1, Duration::from_secs(2)).expect("valid intensity");
    declared.set_intensity(intensity);
    let plan = declared
        .lower(&ResolvedDefaults::default(), None)
        .expect("the defined builder lowers");
    assert_eq!(plan.intensity_policy(), intensity);
    assert_eq!(plan.defaults, ResolvedDefaults::default());
}

#[test]
fn a_never_started_slot_gives_up_its_definition() {
    let mut owner = ScopeCell::new(member(), ScopeFlavor::Dynamic, ScopeIdentity::new());
    let mut slot: Slot = SlotCell::new(member(), None);
    slot.define(configured_task());
    let given_up = slot.take_never_started(&mut owner);
    assert!(given_up.is_some());
    assert!(slot.terminal.is_some_and(|exit| !exit.started));
}

#[test]
fn scope_constructions_hand_out_their_declaration() {
    let mut once: ScopeConstruction<&str, &str> = ScopeConstruction {
        source: DefinitionSource::OneShot(Some("tree")),
        options: CommonOptions::default(),
        defaults: DefaultsInheritance::Reset,
    };
    assert_eq!(once.mode(), ChildMode::OneShot);
    assert_eq!(once.restartable(), None);
    assert_eq!(once.take_one_shot(), Some("tree"));
    assert_eq!(once.take_one_shot(), None);
    let ChildConstruction::Scope(restartable) = scope_construction(CommonOptions {
        readiness_deadline: ReadinessDeadline::Unbounded,
        ..CommonOptions::default()
    }) else {
        panic!("a scope construction")
    };
    assert_eq!(restartable.mode(), ChildMode::Restartable);
    assert_eq!(restartable.restartable(), Some(&"scope"));
}

#[test]
fn an_outline_names_its_unfilled_reservations() {
    let unfilled = OutlineError::UnfilledReservations { paths: vec![vec![id("a"), id("b")]] };
    assert_eq!(unfilled.clone(), unfilled);
    assert_eq!(unfilled.message(), "tree contains unfilled reservations");
}
