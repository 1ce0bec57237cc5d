//! Fairness of ready selection over many calls.

use crate::identity::Incarnation;
use crate::mailbox::model::MailboxModel;
use crate::mailbox::state::AcceptedSequence;
use crate::raw::latch::{is_set, LatchId};
use crate::raw::laws::lemma_begun_wf;
use crate::raw::resources::{QueuedEvent, RawModel};
use crate::raw::select::{cancelled_in, leading, lemma_leading_bounds, Turn, TurnEnd};
use crate::time::Instant;
use vstd::prelude::*;

verus! {

/// What one selection starts from.
pub struct Selecting<M, C, W> {
    /// The incarnation.
    pub owned: RawModel<M, C, W>,
    /// The mailbox it reads.
    pub mailbox: MailboxModel<M>,
    /// Which incarnation it is.
    pub incarnation: Incarnation,
    /// The latches.
    pub latches: Seq<bool>,
    /// The time.
    pub now: Instant,
}

impl<M, C, W> Selecting<M, C, W> {
    /// What the selection comes to.
    pub open spec fn selected(self) -> Turn<M, C, W> {
        self.owned.selects(self.mailbox, self.incarnation, self.latches, self.now)
    }

    /// How many queued completions the selection takes off the queue.
    pub open spec fn taken(self) -> int {
        self.owned.events.len() - self.selected().owned.events.len()
    }

    /// Whether no timer has fired or fires now.
    pub open spec fn steady(self) -> bool {
        &&& self.owned.wf()
        &&& !self.owned.timer_is_due(self.now)
        &&& self.owned.batch matches Some(batch) ==> !batch.fired()
    }

    /// What the selection leaves, once what it found has become a message.
    pub open spec fn left(self) -> RawModel<M, C, W> {
        self.selected().owned.settled(self.selected().end.found(), self.now)
    }

    /// Whether `next` is the selection after this one. In between the mailbox,
    /// the continuations, the timers and the latches may change in any way,
    /// cleanup may panic, and completions are queued behind those that are
    /// there.
    pub open spec fn precedes(self, next: Selecting<M, C, W>) -> bool {
        let left = self.left();
        &&& next.owned.batch == left.batch
        &&& next.owned.last_delivery_was_continuation == left.last_delivery_was_continuation
        &&& left.events.is_prefix_of(next.owned.events)
    }
}

/// Whether each selection is the one after that before it, no timer fires in
/// any, and the offload with this cancellation latch is not cancelled.
pub open spec fn steady_run<M, C, W>(
    run: Seq<Selecting<M, C, W>>,
    cancellation: LatchId,
) -> bool {
    &&& forall|i: int|
        0 <= i < run.len() ==> (#[trigger] run[i]).steady() && !is_set(
            run[i].latches,
            cancellation,
        )
    &&& forall|i: int| 0 <= i < run.len() - 1 ==> (#[trigger] run[i]).precedes(run[i + 1])
}

/// Whether no selection of a run has a panic of cleanup to resume first.
pub open spec fn undisturbed<M, C, W>(run: Seq<Selecting<M, C, W>>) -> bool {
    forall|i: int| 0 <= i < run.len() ==> (#[trigger] run[i]).owned.panic is None
}

/// Whether a run hands back `event`, the completion at `place` of its first
/// queue.
pub open spec fn delivers<M, C, W>(
    run: Seq<Selecting<M, C, W>>,
    place: int,
    event: QueuedEvent<C>,
) -> bool
    decreases run.len(),
{
    &&& run.len() > 0
    &&& if place < run[0].taken() {
        run[0].selected().end == TurnEnd::<M, C>::Completion(event)
    } else {
        delivers(run.skip(1), place - run[0].taken(), event)
    }
}

/// How many messages a run takes from the mailbox before it hands back the
/// completion at `place` of its first queue.
pub open spec fn mail_before<M, C, W>(run: Seq<Selecting<M, C, W>>, place: int) -> nat
    decreases run.len(),
{
    if run.len() == 0 || place < run[0].taken() {
        0
    } else {
        mail_before(run.skip(1), place - run[0].taken()) + if run[0].selected().end is Mail {
            1nat
        } else {
            0
        }
    }
}

/// How many messages may still come before the completion at `place`: one of
/// the selection in progress unless it had its one, and one of the next where
/// the completion is not in this one.
spec fn mail_left<M, C, W>(owned: RawModel<M, C, W>, place: int) -> nat {
    match owned.batch {
        None => 1,
        Some(batch) => (if batch.budget_exhausted() {
            0nat
        } else {
            1
        }) + if place < batch.offloads_remaining {
            0nat
        } else {
            1
        },
    }
}

/// How many selections may still come before the completion at `place`.
spec fn selections_left<M, C, W>(owned: RawModel<M, C, W>, place: int) -> int {
    2 * (place + mail_left(owned, place)) + if owned.last_delivery_was_continuation {
        0int
    } else {
        1
    }
}

/// What one turn does while the completion at `place` waits.
proof fn lemma_turn_is_fair<M, C, W>(
    owned: RawModel<M, C, W>,
    mailbox: MailboxModel<M>,
    incarnation: Incarnation,
    latches: Seq<bool>,
    now: Instant,
    place: int,
)
    requires
        owned.wf(),
        !owned.timer_is_due(now),
        owned.batch matches Some(batch) ==> !batch.fired(),
        0 <= place < owned.events.len(),
        !is_set(latches, owned.events[place].cancellation),
    ensures
        ({
            let turn = owned.turn(mailbox, incarnation, latches, now);
            let gone = owned.events.len() - turn.owned.events.len();
            &&& 0 <= gone <= place + 1
            &&& turn.owned.events == owned.events.skip(gone)
            &&& turn.owned.timers == owned.timers
            &&& turn.owned.wf()
            &&& turn.owned.batch matches Some(batch) ==> !batch.fired()
            &&& gone == place + 1 ==> turn.end == TurnEnd::<M, C>::Completion(owned.events[place])
            &&& gone <= place ==> {
                let left = mail_left(turn.owned, place - gone);
                &&& !(turn.end is Timer) && !(turn.end is Tick)
                &&& !(turn.end is Idle) && !(turn.end is Resume)
                &&& left + (if turn.end is Mail {
                    1nat
                } else {
                    0
                }) <= mail_left(owned, place)
                &&& turn.end is Again ==> {
                    &&& owned.batch is Some
                    &&& turn.owned.batch is None
                    &&& turn.owned.last_delivery_was_continuation
                        == owned.last_delivery_was_continuation
                    &&& !owned.last_delivery_was_continuation ==> owned.continuations.len() == 0
                    &&& turn.owned.continuations == owned.continuations
                    &&& turn.cleanup.len() == gone
                }
                &&& !(turn.end is Again) ==> selections_left(
                    turn.owned.settled(turn.end.found(), now),
                    place - gone,
                ) < selections_left(owned, place)
            }
        }),
{
    let accepted = AcceptedSequence(mailbox.accepted);
    let begun = owned.begun(accepted, now);
    lemma_begun_wf(owned, accepted, now);
    let batch = begun.batch->Some_0;
    let captured = begun.events.take(batch.offloads_remaining as int);
    lemma_leading_bounds(captured, cancelled_in(latches));
    let cancelled = leading(captured, cancelled_in(latches));
    let turn = owned.turn(mailbox, incarnation, latches, now);
    let gone = owned.events.len() - turn.owned.events.len();
    if place < captured.len() {
        assert(captured[place] == owned.events[place]);
        assert(cancelled <= place);
    }
    assert(turn.owned.events =~= owned.events.skip(gone));
    assert(batch.armings() =~= seq![]);
}

/// What one selection does while the completion at `place` waits.
proof fn lemma_selection_is_fair<M, C, W>(at: Selecting<M, C, W>, place: int)
    requires
        at.steady(),
        0 <= place < at.owned.events.len(),
        !is_set(at.latches, at.owned.events[place].cancellation),
    ensures
        ({
            let turn = at.selected();
            &&& 0 <= at.taken() <= place + 1
            &&& turn.owned.events == at.owned.events.skip(at.taken())
            &&& at.taken() == place + 1 ==> turn.end == TurnEnd::<M, C>::Completion(
                at.owned.events[place],
            )
            &&& at.left().events == turn.owned.events
            &&& at.taken() <= place ==> {
                &&& mail_left(at.left(), place - at.taken()) + (if turn.end is Mail {
                    1nat
                } else {
                    0
                }) <= mail_left(at.owned, place)
                &&& at.owned.panic is None ==> selections_left(at.left(), place - at.taken())
                    < selections_left(at.owned, place)
            }
        }),
{
    let owned = at.owned.reclaimed(at.latches);
    assert(at.owned.events.skip(0) =~= at.owned.events);
    if owned.panic is None {
        let first = owned.turn(at.mailbox, at.incarnation, at.latches, at.now);
        lemma_turn_is_fair(owned, at.mailbox, at.incarnation, at.latches, at.now, place);
        if first.end is Again && first.cleanup.len() == 0 {
            lemma_turn_is_fair(first.owned, at.mailbox, at.incarnation, at.latches, at.now, place);
        }
    }
}

/// What a run does while the completion at `place` of its first queue waits.
proof fn lemma_run_is_fair<M, C, W>(run: Seq<Selecting<M, C, W>>, place: int)
    requires
        run.len() > 0,
        0 <= place < run[0].owned.events.len(),
        steady_run(run, run[0].owned.events[place].cancellation),
    ensures
        mail_before(run, place) <= mail_left(run[0].owned, place),
        undisturbed(run) && run.len() > selections_left(run[0].owned, place) ==> delivers(
            run,
            place,
            run[0].owned.events[place],
        ),
    decreases run.len(),
{
    let event = run[0].owned.events[place];
    assert(run[0].steady());
    lemma_selection_is_fair(run[0], place);
    let taken = run[0].taken();
    if taken <= place && run.len() > 1 {
        let rest = run.skip(1);
        let left = run[0].left();
        assert(run[0].precedes(run[1]));
        assert(rest[0] == run[1]);
        assert(left.events[place - taken] == event);
        assert(rest[0].owned.events[place - taken] == event);
        assert(steady_run(rest, event.cancellation)) by {
            assert forall|i: int| 0 <= i < rest.len() implies (#[trigger] rest[i]).steady()
                && !is_set(rest[i].latches, event.cancellation) by {
                assert(run[i + 1].steady());
            }
            assert forall|i: int| 0 <= i < rest.len() - 1 implies (#[trigger] rest[i]).precedes(
                rest[i + 1],
            ) by {
                assert(run[i + 1].precedes(run[i + 2]));
            }
        }
        if undisturbed(run) {
            assert forall|i: int| 0 <= i < rest.len() implies (
            #[trigger] rest[i]).owned.panic is None by {
                assert(run[i + 1].owned.panic is None);
            }
        }
        lemma_run_is_fair(rest, place - taken);
    } else if taken <= place {
        assert(mail_before(run.skip(1), place - taken) == 0);
    }
}

/// A queued completion is never starved: while no timer fires and it is not
/// cancelled, at most two messages come from the mailbox before it, however
/// many are readable, and however many completions are queued behind it. Where
/// no panic of cleanup comes in between, it is handed back after a number of
/// selections that only the completions before it bound.
pub proof fn law_a_queued_completion_is_never_starved<M, C, W>(
    run: Seq<Selecting<M, C, W>>,
    place: int,
)
    requires
        run.len() > 0,
        0 <= place < run[0].owned.events.len(),
        steady_run(run, run[0].owned.events[place].cancellation),
    ensures
        mail_before(run, place) <= 2,
        undisturbed(run) && run.len() >= 2 * place + 6 ==> delivers(run, place, run[0].owned.events[place]),
{
    lemma_run_is_fair(run, place);
}

} // verus!
