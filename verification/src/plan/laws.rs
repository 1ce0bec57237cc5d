//! What lowering a declaration comes to, slot by slot.

use crate::exit::Exit;
use crate::identity::{Lines, Membership};
use crate::plan::{
    all_ended, all_evicted, definitions_of, ended, failed, first_invalid, fitting,
    ids_are_distinct, lemma_evicted_is_gone, lemma_evicting_elsewhere, lemma_fitted_is_newest,
    lemma_fitting_elsewhere, lemma_fitting_len, members_of, mode_of, named_once, names_invalid,
    planned, rebased, resolved_slot, undefined_ids, BuilderCore, ChildConstruction, ChildPlan,
    DefinitionState, LowerFailure, OnceTask, ScopeCell, ScopeConstruction, SlotCell, TaskDef,
};
use crate::policy::{
    common_fault, path_ids, resolved_common, ChildMode, CommonOptions, InvalidPolicy, Readiness,
    ResolvedDefaults, RestartCondition,
};
use crate::raw::definition::{DefinitionSource, RawConstruction};
use vstd::prelude::*;

verus! {

/// A child resolves by its kind: tasks are ready at once, raw actors as they
/// declare, scopes by their own startup; a factory can be restarted, and one
/// instance cannot.
pub proof fn law_a_child_resolves_by_its_kind<F, R>(
    raw: RawConstruction<F, R>,
    task: TaskDef<F>,
    once: OnceTask<R>,
    scope: ScopeConstruction<F, R>,
    defaults: ResolvedDefaults,
)
    ensures
        ChildConstruction::<F, R>::Task(task).resolved(defaults) == resolved_common(
            task.options,
            defaults,
            ChildMode::Restartable,
            Readiness::Immediate,
        ),
        ChildConstruction::<F, R>::TaskOnce(once).resolved(defaults) == resolved_common(
            once.options,
            defaults,
            ChildMode::OneShot,
            Readiness::Immediate,
        ),
        raw.source is Restartable ==> ChildConstruction::Raw(raw).resolved(defaults)
            == resolved_common(raw.options, defaults, ChildMode::Restartable, raw.readiness),
        raw.source is OneShot ==> ChildConstruction::Raw(raw).resolved(defaults)
            == resolved_common(raw.options, defaults, ChildMode::OneShot, raw.readiness),
        scope.source is Restartable ==> ChildConstruction::Scope(scope).resolved(defaults)
            == resolved_common(
            CommonOptions { readiness: None, ..scope.options },
            defaults,
            ChildMode::Restartable,
            Readiness::Manual,
        ),
        scope.source is OneShot ==> ChildConstruction::Scope(scope).resolved(defaults)
            == resolved_common(
            CommonOptions { readiness: None, ..scope.options },
            defaults,
            ChildMode::OneShot,
            Readiness::Manual,
        ),
        ChildConstruction::<F, R>::Task(task).fault(defaults) == common_fault(
            task.options,
            defaults,
        ),
        ChildConstruction::<F, R>::TaskOnce(once).fault(defaults) == common_fault(
            once.options,
            defaults,
        ),
        ChildConstruction::Raw(raw).fault(defaults) == common_fault(raw.options, defaults),
        ChildConstruction::Scope(scope).fault(defaults) == common_fault(scope.options, defaults),
{
}

/// What a restartable task leaves out it inherits from its scope; a one-shot
/// task never restarts.
pub proof fn law_a_task_inherits_what_it_leaves_out<F, R>(
    task: TaskDef<F>,
    once: OnceTask<R>,
    defaults: ResolvedDefaults,
)
    ensures
        ({
            let resolved = ChildConstruction::<F, R>::Task(task).resolved(defaults);
            &&& task.options.restart is None ==> resolved.restart == defaults.child_restart
            &&& task.options.restart matches Some(restart) ==> resolved.restart == restart
            &&& task.options.shutdown is None ==> resolved.shutdown == defaults.child_shutdown
            &&& task.options.shutdown matches Some(shutdown) ==> resolved.shutdown == shutdown
        }),
        ChildConstruction::<F, R>::TaskOnce(once).resolved(defaults).restart.condition
            == RestartCondition::Never,
{
}

/// A slot's options are those of its definition; a slot without one has none.
pub proof fn law_only_a_defined_slot_has_options<F, R>(
    slot: SlotCell<F, R>,
    defaults: ResolvedDefaults,
)
    ensures
        resolved_slot(slot, defaults) is Some <==> slot.definition is Defined,
        slot.definition matches DefinitionState::Defined(construction) ==> resolved_slot(
            slot,
            defaults,
        ) == Some(construction.resolved(defaults)),
{
}

/// The undefined slots are named exactly, in declaration order: each of them
/// once where ids differ, and no other.
pub proof fn law_every_undefined_slot_is_named<F, R>(slots: Seq<SlotCell<F, R>>)
    ensures
        forall|i: int| #![trigger slots[i]]
            0 <= i < slots.len() && slots[i].definition is Undefined ==> undefined_ids(
                slots,
            ).contains(slots[i].member.id@),
        forall|k: int| #![trigger undefined_ids(slots)[k]]
            0 <= k < undefined_ids(slots).len() ==> exists|i: int| #![trigger slots[i]]
                0 <= i < slots.len() && slots[i].definition is Undefined && undefined_ids(slots)[k]
                    == slots[i].member.id@,
        undefined_ids(slots).len() == 0 <==> forall|i: int|
            0 <= i < slots.len() ==> !((#[trigger] slots[i]).definition is Undefined),
        undefined_ids(slots).len() <= slots.len(),
    decreases slots.len(),
{
    let named = undefined_ids(slots);
    if slots.len() > 0 {
        let fewer = slots.drop_last();
        let before = undefined_ids(fewer);
        let last = slots.len() - 1;
        law_every_undefined_slot_is_named(fewer);
        assert forall|i: int| #![trigger slots[i]]
            0 <= i < slots.len() && slots[i].definition is Undefined implies named.contains(
            slots[i].member.id@,
        ) by {
            if i < last {
                assert(fewer[i] == slots[i]);
                let k = choose|k: int| 0 <= k < before.len() && before[k] == slots[i].member.id@;
                assert(named[k] == slots[i].member.id@);
            } else {
                assert(named[before.len() as int] == slots[i].member.id@);
            }
        }
        assert forall|k: int| #![trigger named[k]] 0 <= k < named.len() implies exists|i: int|
            #![trigger slots[i]]
            0 <= i < slots.len() && slots[i].definition is Undefined && named[k]
                == slots[i].member.id@ by {
            if k < before.len() {
                assert(named[k] == before[k]);
                let i = choose|i: int| #![trigger fewer[i]]
                    0 <= i < fewer.len() && fewer[i].definition is Undefined && before[k]
                        == fewer[i].member.id@;
                assert(slots[i] == fewer[i]);
            } else {
                assert(slots[last].definition is Undefined);
            }
        }
        if forall|i: int|
            0 <= i < slots.len() ==> !((#[trigger] slots[i]).definition is Undefined) {
            assert forall|i: int| 0 <= i < fewer.len() implies !((
            #[trigger] fewer[i]).definition is Undefined) by {
                assert(fewer[i] == slots[i]);
            }
            assert(!(slots[last].definition is Undefined));
        }
        if named.len() == 0 {
            assert forall|i: int| 0 <= i < slots.len() implies !((
            #[trigger] slots[i]).definition is Undefined) by {
                if slots[i].definition is Undefined {
                    assert(named.contains(slots[i].member.id@));
                }
            }
        }
    }
}

/// The definitions taken out are those of the defined slots: each of them, and
/// no other, in declaration order where every slot is defined.
pub proof fn law_every_definition_is_taken_out<F, R>(slots: Seq<SlotCell<F, R>>)
    ensures
        forall|i: int| #![trigger slots[i]]
            0 <= i < slots.len() && slots[i].definition is Defined ==> definitions_of(
                slots,
            ).contains(slots[i].definition->Defined_0),
        definitions_of(slots).len() <= slots.len(),
        (forall|i: int| 0 <= i < slots.len() ==> (#[trigger] slots[i]).definition is Defined)
            ==> definitions_of(slots) == Seq::new(
            slots.len(),
            |i: int| slots[i].definition->Defined_0,
        ),
        (forall|i: int| 0 <= i < slots.len() ==> !((#[trigger] slots[i]).definition is Defined))
            ==> definitions_of(slots).len() == 0,
    decreases slots.len(),
{
    let taken = definitions_of(slots);
    if slots.len() > 0 {
        let fewer = slots.drop_last();
        let before = definitions_of(fewer);
        let last = slots.len() - 1;
        law_every_definition_is_taken_out(fewer);
        assert forall|i: int| #![trigger slots[i]]
            0 <= i < slots.len() && slots[i].definition is Defined implies taken.contains(
            slots[i].definition->Defined_0,
        ) by {
            if i < last {
                assert(fewer[i] == slots[i]);
                let k = choose|k: int|
                    0 <= k < before.len() && before[k] == slots[i].definition->Defined_0;
                assert(taken[k] == before[k]);
            } else {
                assert(taken[before.len() as int] == slots[i].definition->Defined_0);
            }
        }
        if forall|i: int| 0 <= i < slots.len() ==> (#[trigger] slots[i]).definition is Defined {
            assert forall|i: int| 0 <= i < fewer.len() implies (
            #[trigger] fewer[i]).definition is Defined by {
                assert(fewer[i] == slots[i]);
            }
            assert(slots[last].definition is Defined);
            assert(taken =~= Seq::new(slots.len(), |i: int| slots[i].definition->Defined_0));
        }
        if forall|i: int|
            0 <= i < slots.len() ==> !((#[trigger] slots[i]).definition is Defined) {
            assert forall|i: int| 0 <= i < fewer.len() implies !((
            #[trigger] fewer[i]).definition is Defined) by {
                assert(fewer[i] == slots[i]);
            }
            assert(!(slots[last].definition is Defined));
        }
    } else {
        assert(taken =~= Seq::new(slots.len(), |i: int| slots[i].definition->Defined_0));
    }
}

/// Whether a slot's policy is invalid under `defaults`.
pub open spec fn is_invalid<F, R>(slot: SlotCell<F, R>, defaults: ResolvedDefaults) -> bool {
    slot.definition is Defined && slot.definition->Defined_0.fault(defaults) is Some
}

/// The slot reported is the first whose policy is invalid, and one is reported
/// wherever there is one.
pub proof fn law_the_first_invalid_slot_is_reported<F, R>(
    slots: Seq<SlotCell<F, R>>,
    defaults: ResolvedDefaults,
)
    ensures
        first_invalid(slots, defaults) is None <==> forall|i: int|
            0 <= i < slots.len() ==> !is_invalid(#[trigger] slots[i], defaults),
        first_invalid(slots, defaults) matches Some(place) ==> {
            &&& 0 <= place < slots.len()
            &&& is_invalid(slots[place], defaults)
            &&& forall|i: int| 0 <= i < place ==> !is_invalid(#[trigger] slots[i], defaults)
        },
    decreases slots.len(),
{
    if slots.len() > 0 {
        let fewer = slots.drop_last();
        law_the_first_invalid_slot_is_reported(fewer, defaults);
        match first_invalid(fewer, defaults) {
            Some(place) => {
                assert(fewer[place] == slots[place]);
                assert forall|i: int| 0 <= i < place implies !is_invalid(
                    #[trigger] slots[i],
                    defaults,
                ) by {
                    assert(fewer[i] == slots[i]);
                }
            },
            None => {
                assert forall|i: int| 0 <= i < fewer.len() implies !is_invalid(
                    #[trigger] slots[i],
                    defaults,
                ) by {
                    assert(fewer[i] == slots[i]);
                }
            },
        }
    }
}

/// A rejected policy is reported with the id of its slot and what is wrong.
pub proof fn law_a_rejected_policy_names_its_slot<F, R>(
    slots: Seq<SlotCell<F, R>>,
    defaults: ResolvedDefaults,
    invalid: InvalidPolicy,
)
    requires
        names_invalid(slots, defaults, invalid),
    ensures
        exists|place: int| #![trigger slots[place]]
            {
                &&& 0 <= place < slots.len()
                &&& is_invalid(slots[place], defaults)
                &&& path_ids(invalid.path@) == seq![slots[place].member.id@]
                &&& slots[place].definition->Defined_0.fault(defaults) == Some(
                    (invalid.field, invalid.error),
                )
                &&& forall|i: int| 0 <= i < place ==> !is_invalid(#[trigger] slots[i], defaults)
            },
{
    law_the_first_invalid_slot_is_reported(slots, defaults);
    let place = first_invalid(slots, defaults)->Some_0;
    assert(is_invalid(slots[place], defaults));
}

/// Fitting children into a scope fails exactly where the line of one of them is
/// spent, and then at the first such child. Those before it, or all of them,
/// continue their lines or begin them with what they bring; no other line
/// changes.
pub proof fn law_fitting_fails_at_the_first_spent_line<F, R>(
    slots: Seq<SlotCell<F, R>>,
    lines: Lines,
    other: Seq<char>,
)
    requires
        ids_are_distinct(slots),
    ensures
        ({
            let fit = fitting(lines, members_of(slots));
            let spent = |i: int|
                lines.dom().contains(slots[i].member.id@) && lines[slots[i].member.id@].generation
                    == u64::MAX;
            let placed: int = match fit.stuck {
                Some(stuck) => stuck,
                None => slots.len() as int,
            };
            &&& fit.stuck is None <==> forall|i: int|
                0 <= i < slots.len() ==> !#[trigger] spent(i)
            &&& fit.stuck matches Some(stuck) ==> 0 <= stuck < slots.len() && spent(stuck)
            &&& forall|i: int|
                0 <= i < placed ==> !#[trigger] spent(i)
            &&& fit.members.len() == slots.len()
            &&& forall|i: int| #![trigger fit.members[i]]
                0 <= i < placed ==> {
                    let id = slots[i].member.id@;
                    &&& !lines.dom().contains(id) ==> fit.members[i] == slots[i].member.membership
                    &&& lines.dom().contains(id) ==> fit.members[i] == (Membership {
                        lineage: lines[id].lineage,
                        generation: (lines[id].generation + 1) as u64,
                    })
                    &&& fit.lines.dom().contains(id)
                    &&& fit.lines[id] == fit.members[i]
                }
            &&& forall|i: int| #![trigger fit.members[i]]
                placed <= i < slots.len() ==> fit.members[i] == slots[i].member.membership
            &&& (forall|i: int| 0 <= i < slots.len() ==> (#[trigger] slots[i]).member.id@ != other)
                ==> {
                &&& fit.lines.dom().contains(other) <==> lines.dom().contains(other)
                &&& lines.dom().contains(other) ==> fit.lines[other] == lines[other]
            }
        }),
{
    let members = members_of(slots);
    let fit = fitting(lines, members);
    let spent = |i: int|
        lines.dom().contains(slots[i].member.id@) && lines[slots[i].member.id@].generation
            == u64::MAX;
    let placed: int = match fit.stuck {
        Some(stuck) => stuck,
        None => slots.len() as int,
    };
    lemma_named_once(slots);
    lemma_fitting_len(lines, members);
    lemma_stuck_on_spent(lines, members);
    lemma_unfitted_keep(lines, members);
    assert forall|i: int| #![trigger fit.members[i]] 0 <= i < placed implies ({
        let id = slots[i].member.id@;
        &&& !lines.dom().contains(id) ==> fit.members[i] == slots[i].member.membership
        &&& lines.dom().contains(id) ==> fit.members[i] == (Membership {
            lineage: lines[id].lineage,
            generation: (lines[id].generation + 1) as u64,
        })
        &&& fit.lines.dom().contains(id)
        &&& fit.lines[id] == fit.members[i]
    }) by {
        lemma_fitted_is_newest(lines, members, i);
        assert(members[i] == (slots[i].member.id@, slots[i].member.membership));
    }
    assert forall|i: int| 0 <= i < placed implies !#[trigger] spent(i) by {
        lemma_fitted_is_newest(lines, members, i);
        assert(members[i] == (slots[i].member.id@, slots[i].member.membership));
    }
    if let Some(stuck) = fit.stuck {
        assert(members[stuck] == (slots[stuck].member.id@, slots[stuck].member.membership));
        assert(spent(stuck));
    }
    if forall|i: int| 0 <= i < slots.len() ==> (#[trigger] slots[i]).member.id@ != other {
        assert forall|i: int| 0 <= i < members.len() implies (#[trigger] members[i]).0 != other by {
            assert(slots[i].member.id@ != other);
        }
        lemma_fitting_elsewhere(lines, members, other);
    }
}

proof fn lemma_named_once<F, R>(slots: Seq<SlotCell<F, R>>)
    requires
        ids_are_distinct(slots),
    ensures
        named_once(members_of(slots)),
{
    let members = members_of(slots);
    assert forall|i: int, j: int| 0 <= i < j < members.len() implies (#[trigger] members[i]).0 != (
    #[trigger] members[j]).0 by {
        assert(slots[i].member.id@ != slots[j].member.id@);
    }
}

/// Fitting gets stuck on a member whose line is spent.
proof fn lemma_stuck_on_spent(lines: Lines, members: Seq<(Seq<char>, Membership)>)
    requires
        named_once(members),
    ensures
        fitting(lines, members).stuck matches Some(stuck) ==> {
            &&& 0 <= stuck < members.len()
            &&& lines.dom().contains(members[stuck].0)
            &&& lines[members[stuck].0].generation == u64::MAX
        },
    decreases members.len(),
{
    if members.len() > 0 {
        let fewer = members.drop_last();
        assert forall|a: int, b: int| 0 <= a < b < fewer.len() implies (#[trigger] fewer[a]).0 != (
        #[trigger] fewer[b]).0 by {
            assert(fewer[a] == members[a]);
            assert(fewer[b] == members[b]);
        }
        lemma_stuck_on_spent(lines, fewer);
        if let Some(stuck) = fitting(lines, fewer).stuck {
            assert(fewer[stuck] == members[stuck]);
        } else {
            let id = members.last().0;
            assert forall|i: int| 0 <= i < fewer.len() implies (#[trigger] fewer[i]).0 != id by {
                assert(fewer[i] == members[i]);
                assert(members[i].0 != members[members.len() - 1].0);
            }
            lemma_fitting_elsewhere(lines, fewer, id);
        }
    }
}

/// Members from the one that is stuck on stay as they were.
proof fn lemma_unfitted_keep(lines: Lines, members: Seq<(Seq<char>, Membership)>)
    ensures
        fitting(lines, members).stuck matches Some(stuck) ==> forall|i: int|
            #![trigger fitting(lines, members).members[i]]
            stuck <= i < members.len() ==> fitting(lines, members).members[i] == members[i].1,
    decreases members.len(),
{
    if members.len() > 0 {
        let fewer = members.drop_last();
        lemma_unfitted_keep(lines, fewer);
        lemma_fitting_len(lines, fewer);
        let before = fitting(lines, fewer);
        let all = fitting(lines, members);
        if let Some(stuck) = all.stuck {
            assert forall|i: int| #![trigger all.members[i]] stuck <= i < members.len() implies
                all.members[i] == members[i].1 by {
                if i < fewer.len() {
                    assert(before.stuck == Some(stuck));
                    assert(all.members[i] == before.members[i]);
                    assert(fewer[i] == members[i]);
                }
            }
        }
    }
}

/// Evicting several members forgets the line of each whose membership is the
/// newest, keeps that of one already superseded, and touches no other.
pub proof fn law_evicting_forgets_only_the_newest<F, R>(
    slots: Seq<SlotCell<F, R>>,
    lines: Lines,
    place: int,
    other: Seq<char>,
)
    requires
        ids_are_distinct(slots),
        0 <= place < slots.len(),
    ensures
        ({
            let left = all_evicted(lines, members_of(slots));
            let id = slots[place].member.id@;
            &&& !lines.dom().contains(id) ==> !left.dom().contains(id)
            &&& lines.dom().contains(id) && lines[id] == slots[place].member.membership
                ==> !left.dom().contains(id)
            &&& lines.dom().contains(id) && lines[id] != slots[place].member.membership
                ==> left.dom().contains(id) && left[id] == lines[id]
            &&& (forall|i: int| 0 <= i < slots.len() ==> (#[trigger] slots[i]).member.id@ != other)
                ==> {
                &&& left.dom().contains(other) <==> lines.dom().contains(other)
                &&& lines.dom().contains(other) ==> left[other] == lines[other]
            }
        }),
{
    let members = members_of(slots);
    let id = slots[place].member.id@;
    lemma_named_once(slots);
    assert(members[place] == (id, slots[place].member.membership));
    if !lines.dom().contains(id) || lines[id] == slots[place].member.membership {
        lemma_evicted_is_gone(lines, members, place);
    } else {
        lemma_superseded_stays(lines, members, place);
    }
    if forall|i: int| 0 <= i < slots.len() ==> (#[trigger] slots[i]).member.id@ != other {
        assert forall|i: int| 0 <= i < members.len() implies (#[trigger] members[i]).0 != other by {
            assert(slots[i].member.id@ != other);
        }
        lemma_evicting_elsewhere(lines, members, other);
    }
}

/// Evicting a membership that is not the newest keeps its line.
proof fn lemma_superseded_stays(lines: Lines, members: Seq<(Seq<char>, Membership)>, place: int)
    requires
        named_once(members),
        0 <= place < members.len(),
        lines.dom().contains(members[place].0),
        lines[members[place].0] != members[place].1,
    ensures
        all_evicted(lines, members).dom().contains(members[place].0),
        all_evicted(lines, members)[members[place].0] == lines[members[place].0],
    decreases members.len(),
{
    let fewer = members.drop_last();
    assert forall|a: int, b: int| 0 <= a < b < fewer.len() implies (#[trigger] fewer[a]).0 != (
    #[trigger] fewer[b]).0 by {
        assert(fewer[a] == members[a]);
        assert(fewer[b] == members[b]);
    }
    let id = members[place].0;
    if place < fewer.len() {
        assert(fewer[place] == members[place]);
        lemma_superseded_stays(lines, fewer, place);
        assert(members[place].0 != members[members.len() - 1].0);
    } else {
        assert forall|i: int| 0 <= i < fewer.len() implies (#[trigger] fewer[i]).0 != id by {
            assert(fewer[i] == members[i]);
            assert(members[i].0 != members[members.len() - 1].0);
        }
        lemma_evicting_elsewhere(lines, fewer, id);
    }
}

/// What ends without having started says so; what has ended keeps its end.
pub proof fn law_an_end_is_recorded_once(exit: Exit)
    ensures
        ended(Some(exit)) == Some(exit),
        ended(None) matches Some(end) && !end.started && !end.failure,
{
}

/// Ending slots claims each definition and records each end; ids, memberships
/// and options stay, and so does the order.
pub proof fn law_ended_slots_keep_their_members<F, R>(slots: Seq<SlotCell<F, R>>, place: int)
    requires
        0 <= place < slots.len(),
    ensures
        ({
            let after = all_ended(slots);
            &&& after.len() == slots.len()
            &&& after[place].member == slots[place].member
            &&& after[place].scope == slots[place].scope
            &&& after[place].options == slots[place].options
            &&& after[place].terminal is Some
            &&& slots[place].terminal is Some ==> after[place].terminal == slots[place].terminal
            &&& slots[place].definition is Defined ==> after[place].definition is Lowered
            &&& !(slots[place].definition is Defined) ==> after[place].definition
                == slots[place].definition
        }),
{
}

/// Giving slots their fitted memberships changes nothing else of them.
pub proof fn law_rebasing_changes_only_memberships<F, R>(
    slots: Seq<SlotCell<F, R>>,
    members: Seq<Membership>,
    place: int,
)
    requires
        0 <= place < slots.len(),
    ensures
        ({
            let after = rebased(slots, members);
            &&& after.len() == slots.len()
            &&& after[place].member.membership == members[place]
            &&& after[place].member.id == slots[place].member.id
            &&& after[place].member.slot == slots[place].member.slot
            &&& after[place].scope == slots[place].scope
            &&& after[place].definition == slots[place].definition
            &&& after[place].options == slots[place].options
            &&& after[place].terminal == slots[place].terminal
        }),
{
}

/// A plan has one child for each slot, in declaration order, made from the
/// slot's own definition under the scope's defaults; the slot's definition is
/// then claimed.
pub proof fn law_a_plan_has_every_child_in_order<F, R>(
    slots: Seq<SlotCell<F, R>>,
    children: Seq<ChildPlan<F, R>>,
    defaults: ResolvedDefaults,
    place: int,
)
    requires
        planned(slots, children, defaults),
        0 <= place < slots.len(),
    ensures
        children.len() == slots.len(),
        slots[place].definition is Defined,
        children[place].construction == slots[place].definition->Defined_0,
        children[place].options == slots[place].definition->Defined_0.resolved(defaults),
        children[place].slot.member == slots[place].member,
        children[place].slot.scope == slots[place].scope,
        children[place].slot.definition is Lowered,
        children[place].slot.options == Some(children[place].options),
        children[place].slot.terminal == slots[place].terminal,
{
    assert(children[place].construction == slots[place].definition->Defined_0);
}

/// What is left of a failed lowering: every definition to destroy, every slot
/// and the scope itself ended, and what it declared about itself. Where no
/// child was fitted in, the stable scope is handed back as it was.
pub proof fn law_a_failed_lowering_ends_the_declaration<F, R>(
    builder: BuilderCore<F, R>,
    failure: LowerFailure<F, R>,
    stable: Option<ScopeCell>,
    adopting: bool,
    place: int,
)
    requires
        failed(builder, failure, stable, adopting),
        adopting ==> stable is Some,
        0 <= place < builder.slots@.len(),
    ensures
        failure.builder.slots@.len() == builder.slots@.len(),
        failure.builder.slots@[place].member == builder.slots@[place].member,
        failure.builder.slots@[place].terminal is Some,
        !(failure.builder.slots@[place].definition is Defined),
        failure.builder.root.terminal is Some,
        failure.builder.root.member == builder.root.member,
        failure.builder.config == builder.config,
        builder.slots@[place].definition is Defined ==> failure.definitions@.contains(
            builder.slots@[place].definition->Defined_0,
        ),
        !adopting ==> failure.stable == stable,
        adopting ==> failure.stable is Some && failure.stable->Some_0.member
            == stable->Some_0.member && failure.stable->Some_0.terminal == stable->Some_0.terminal,
{
    law_every_definition_is_taken_out(builder.slots@);
    law_ended_slots_keep_their_members(builder.slots@, place);
}

/// A declaration has an id exactly where one of its slots does.
pub proof fn law_a_slot_declares_its_id<F, R>(builder: BuilderCore<F, R>, id: Seq<char>, place: int)
    ensures
        0 <= place < builder.slots@.len() && builder.slots@[place].member.id@ == id
            ==> builder.declares(id),
        (forall|i: int|
            0 <= i < builder.slots@.len() ==> (#[trigger] builder.slots@[i]).member.id@ != id)
            ==> !builder.declares(id),
{
}

/// Only what comes from one instance cannot be recreated.
pub proof fn law_a_factory_can_recreate<F, R>(factory: F, instance: Option<R>)
    ensures
        mode_of(DefinitionSource::<F, R>::Restartable(factory)) == ChildMode::Restartable,
        mode_of(DefinitionSource::<F, R>::OneShot(instance)) == ChildMode::OneShot,
{
}

} // verus!
