//! What holds of every mailbox, across its transitions.

use crate::identity::Incarnation;
use crate::mailbox::model::{
    all_but_last, has_room, last_of, optional, waiting_message, MailboxModel, Submission,
};
use crate::mailbox::operation::{OperationOutcome, SendOperation, WakerId, WithdrawalOutcome};
use crate::mailbox::state::{all_observed, Binding, Envelope, Phase, ReceiveMode};
use crate::policy::ResolvedMailbox;
use crate::table::{has_key, index_of, lemma_index_is_unique};
use vstd::multiset::Multiset;
use vstd::prelude::*;

verus! {

/// The messages of a run of envelopes.
pub open spec fn contents<M>(envelopes: Seq<Envelope<M>>) -> Multiset<M>
    decreases envelopes.len(),
{
    if envelopes.len() == 0 {
        Multiset::empty()
    } else {
        contents(envelopes.drop_last()).insert(envelopes.last().message)
    }
}

/// The message a send operation owns, if it owns one.
pub open spec fn owned<M>(operation: SendOperation<M>) -> Multiset<M> {
    match operation.outcome {
        OperationOutcome::Waiting { message, .. } => Multiset::singleton(message),
        OperationOutcome::Terminated { message, .. } => Multiset::singleton(message),
        _ => Multiset::empty(),
    }
}

/// The messages a run of send operations owns.
pub open spec fn carried<M>(rows: Seq<(u64, SendOperation<M>)>) -> Multiset<M>
    decreases rows.len(),
{
    if rows.len() == 0 {
        Multiset::empty()
    } else {
        carried(rows.drop_last()).add(owned(rows.last().1))
    }
}

/// Every message a mailbox is responsible for: accepted and unread, parked, or
/// waiting to be handed back.
pub open spec fn holdings<M>(model: MailboxModel<M>) -> Multiset<M> {
    contents(model.queue).add(contents(optional(model.latest))).add(carried(model.waiters)).add(
        carried(model.detached),
    ).add(carried(model.settled))
}

/// The message a submission hands straight back.
pub open spec fn handed_back<M>(submission: Submission<M>) -> Multiset<M> {
    match submission {
        Submission::Terminated { message, .. } => Multiset::singleton(message),
        _ => Multiset::empty(),
    }
}

/// The message a withdrawal hands back.
pub open spec fn recovered<M>(outcome: Option<WithdrawalOutcome<M>>) -> Multiset<M> {
    match outcome {
        Some(WithdrawalOutcome::Withdrawn { message, .. }) => Multiset::singleton(message),
        Some(WithdrawalOutcome::Terminated { message, .. }) => Multiset::singleton(message),
        _ => Multiset::empty(),
    }
}

proof fn lemma_contents_add<M>(left: Seq<Envelope<M>>, right: Seq<Envelope<M>>)
    ensures
        contents(left + right) == contents(left).add(contents(right)),
    decreases right.len(),
{
    if right.len() == 0 {
        assert(left + right =~= left);
        assert(contents(left).add(contents(right)) =~= contents(left));
    } else {
        assert((left + right).drop_last() =~= left + right.drop_last());
        lemma_contents_add(left, right.drop_last());
        assert(contents(left + right) =~= contents(left).add(contents(right)));
    }
}

proof fn lemma_contents_one<M>(envelope: Envelope<M>)
    ensures
        contents(seq![envelope]) == Multiset::singleton(envelope.message),
{
    assert(seq![envelope].drop_last() =~= seq![]);
    assert(contents(seq![envelope].drop_last()) =~= Multiset::empty());
    assert(contents(seq![envelope]) =~= Multiset::singleton(envelope.message));
}

proof fn lemma_carried_add<M>(left: Seq<(u64, SendOperation<M>)>, right: Seq<(u64, SendOperation<M>)>)
    ensures
        carried(left + right) == carried(left).add(carried(right)),
    decreases right.len(),
{
    if right.len() == 0 {
        assert(left + right =~= left);
        assert(carried(left).add(carried(right)) =~= carried(left));
    } else {
        assert((left + right).drop_last() =~= left + right.drop_last());
        lemma_carried_add(left, right.drop_last());
        assert(carried(left + right) =~= carried(left).add(carried(right)));
    }
}

proof fn lemma_carried_one<M>(row: (u64, SendOperation<M>))
    ensures
        carried(seq![row]) == owned(row.1),
{
    assert(seq![row].drop_last() =~= seq![]);
    assert(carried(seq![row].drop_last()) =~= Multiset::empty());
    assert(carried(seq![row]) =~= owned(row.1));
}

proof fn lemma_carried_remove<M>(rows: Seq<(u64, SendOperation<M>)>, index: int)
    requires
        0 <= index < rows.len(),
    ensures
        carried(rows) == carried(rows.remove(index)).add(owned(rows[index].1)),
{
    let before = rows.take(index);
    let after = rows.skip(index + 1);
    assert(rows =~= before + seq![rows[index]] + after);
    assert(rows.remove(index) =~= before + after);
    lemma_carried_add(before + seq![rows[index]], after);
    lemma_carried_add(before, seq![rows[index]]);
    lemma_carried_add(before, after);
    lemma_carried_one(rows[index]);
    assert(carried(rows) =~= carried(rows.remove(index)).add(owned(rows[index].1)));
}

/// Rows that own the same messages place by place carry the same.
proof fn lemma_carried_congruent<M>(
    left: Seq<(u64, SendOperation<M>)>,
    right: Seq<(u64, SendOperation<M>)>,
)
    requires
        left.len() == right.len(),
        forall|i: int|
            0 <= i < left.len() ==> owned((#[trigger] left[i]).1) == owned(right[i].1),
    ensures
        carried(left) == carried(right),
    decreases left.len(),
{
    if left.len() > 0 {
        assert(owned(left[left.len() - 1].1) == owned(right[left.len() - 1].1));
        assert forall|i: int| 0 <= i < left.drop_last().len() implies owned(
            (#[trigger] left.drop_last()[i]).1,
        ) == owned(right.drop_last()[i].1) by {
            assert(owned(left[i].1) == owned(right[i].1));
        }
        lemma_carried_congruent(left.drop_last(), right.drop_last());
    }
}

/// The parked sends that promotion accepts give up exactly the messages of
/// their envelopes.
proof fn lemma_promoted_contents<M>(model: MailboxModel<M>, binding: Binding, count: nat)
    requires
        model.consistent(),
        count <= model.waiters.len(),
    ensures
        contents(model.promoted_envelopes(count)) == carried(model.waiters.take(count as int)),
        carried(model.promoted_rows(binding.incarnation, count)) == Multiset::<M>::empty(),
        carried(model.waiters) == carried(model.waiters.take(count as int)).add(
            carried(model.waiters.skip(count as int)),
        ),
    decreases count,
{
    assert(model.waiters =~= model.waiters.take(count as int) + model.waiters.skip(count as int));
    lemma_carried_add(model.waiters.take(count as int), model.waiters.skip(count as int));
    if count > 0 {
        let fewer = (count - 1) as nat;
        lemma_promoted_contents(model, binding, fewer);
        assert(model.promoted_envelopes(count).drop_last() =~= model.promoted_envelopes(fewer));
        assert(model.waiters.take(count as int).drop_last() =~= model.waiters.take(fewer as int));
        assert(model.promoted_rows(binding.incarnation, count).drop_last()
            =~= model.promoted_rows(binding.incarnation, fewer));
        let row = model.waiters[count - 1];
        assert(row.1.is_waiting());
        assert(contents(model.promoted_envelopes(count)) =~= carried(
            model.waiters.take(count as int),
        ));
        assert(carried(model.promoted_rows(binding.incarnation, count)) =~= Multiset::empty());
    }
}

/// Promotion neither loses nor invents a message.
proof fn lemma_promotion_conserves<M>(model: MailboxModel<M>, binding: Binding, count: nat)
    requires
        model.consistent(),
        count <= model.waiters.len(),
    ensures
        holdings(model) == holdings(model.promoted(binding, count)).add(
            contents(model.displaced_by_promotion(binding.kind, count)),
        ),
{
    let after = model.promoted(binding, count);
    lemma_promoted_contents(model, binding, count);
    lemma_carried_add(model.settled, model.promoted_rows(binding.incarnation, count));
    let accepted = contents(model.promoted_envelopes(count));
    match binding.kind {
        ResolvedMailbox::Queue(_) => {
            lemma_contents_add(model.queue, model.promoted_envelopes(count));
            assert(contents(Seq::<Envelope<M>>::empty()) =~= Multiset::empty());
            assert(contents(after.queue) == contents(model.queue).add(accepted));
            assert(contents(model.displaced_by_promotion(binding.kind, count))
                == Multiset::<M>::empty());
        },
        ResolvedMailbox::Latest => {
            let history = model.slot_history(count);
            lemma_contents_add(optional(model.latest), model.promoted_envelopes(count));
            assert(history =~= all_but_last(history) + optional(last_of(history)));
            lemma_contents_add(all_but_last(history), optional(last_of(history)));
            assert(contents(optional(model.latest)).add(accepted) == contents(
                model.displaced_by_promotion(binding.kind, count),
            ).add(contents(optional(after.latest))));
        },
    }
    assert(carried(after.settled) =~= carried(model.settled));
    let displaced = contents(model.displaced_by_promotion(binding.kind, count));
    let stored = contents(model.queue).add(contents(optional(model.latest)));
    let stored_after = contents(after.queue).add(contents(optional(after.latest)));
    assert(stored.add(accepted) =~= stored_after.add(displaced)) by {
        assert forall|message: M| #[trigger]
            stored.add(accepted).count(message) == stored_after.add(displaced).count(message) by {
            let slot = contents(optional(model.latest)).add(accepted).count(message);
            let slot_after = displaced.add(contents(optional(after.latest))).count(message);
            assert(binding.kind is Latest ==> slot == slot_after);
        }
    }
    assert forall|message: M| #[trigger]
        holdings(model).count(message) == holdings(after).add(displaced).count(message) by {
        assert(stored.add(accepted).count(message) == stored_after.add(displaced).count(message));
        assert(carried(model.waiters).count(message) == accepted.count(message) + carried(
            after.waiters,
        ).count(message));
    }
    assert(holdings(model) =~= holdings(after).add(displaced));
}

/// Submitting a message neither loses nor duplicates one: it is then held by
/// the mailbox or handed straight back, and what it displaced leaves.
pub proof fn law_submit_conserves_messages<M>(model: MailboxModel<M>, message: M)
    requires
        model.wf(),
    ensures
        holdings(model).insert(message) == holdings(model.submitted(message)).add(
            handed_back(model.submission(message)),
        ).add(contents(model.submission_effects().displaced)),
{
    let after = model.submitted(message);
    let displaced = model.submission_effects().displaced;
    assert(contents(Seq::<Envelope<M>>::empty()) =~= Multiset::empty());
    match model.phase {
        Phase::Terminal(_) => {},
        Phase::Bound(binding) => {
            if model.accepts_now(binding.kind) {
                let envelope = model.next_envelope(message);
                lemma_contents_one(envelope);
                match binding.kind {
                    ResolvedMailbox::Queue(_) => {
                        assert(model.queue.push(envelope).drop_last() =~= model.queue);
                    },
                    ResolvedMailbox::Latest => {},
                }
            } else {
                assert(after.waiters.drop_last() =~= model.waiters);
            }
        },
        _ => {
            assert(after.waiters.drop_last() =~= model.waiters);
        },
    }
    assert(holdings(model).insert(message) =~= holdings(after).add(
        handed_back(model.submission(message)),
    ).add(contents(displaced)));
}

/// Receiving neither loses nor duplicates a message: what leaves the mailbox is
/// the delivered message and what a promotion displaced.
pub proof fn law_receive_conserves_messages<M>(
    model: MailboxModel<M>,
    incarnation: Incarnation,
    mode: ReceiveMode,
)
    requires
        model.wf(),
    ensures
        holdings(model) == holdings(model.after_receive(incarnation, mode)).add(
            contents(optional(model.received(incarnation, mode))),
        ).add(contents(model.receive_effects(incarnation, mode).displaced)),
{
    assert(contents(Seq::<Envelope<M>>::empty()) =~= Multiset::empty());
    if let Some(envelope) = model.received(incarnation, mode) {
        let binding = model.receiving(incarnation, mode)->Some_0;
        let freed = model.without_next(binding.kind);
        lemma_contents_one(envelope);
        match binding.kind {
            ResolvedMailbox::Queue(_) => {
                assert(model.queue =~= seq![envelope] + model.queue.skip(1));
                lemma_contents_add(seq![envelope], model.queue.skip(1));
            },
            ResolvedMailbox::Latest => {},
        }
        assert(holdings(model) =~= holdings(freed).add(contents(seq![envelope])));
        if model.phase is Bound {
            lemma_freed_consistent(model, binding);
            lemma_promotion_conserves(freed, binding, freed.promotable(binding.kind));
        }
        assert(holdings(model) =~= holdings(model.after_receive(incarnation, mode)).add(
            contents(optional(model.received(incarnation, mode))),
        ).add(contents(model.receive_effects(incarnation, mode).displaced)));
    } else {
        assert(holdings(model) =~= holdings(model).add(Multiset::empty()).add(Multiset::empty()));
    }
}

proof fn lemma_freed_consistent<M>(model: MailboxModel<M>, binding: Binding)
    requires
        model.wf(),
        model.phase == Phase::Bound(binding),
        model.next_unread(binding.kind) is Some,
    ensures
        model.without_next(binding.kind).consistent(),
{
    let freed = model.without_next(binding.kind);
    if binding.kind is Queue {
        assert forall|i: int, j: int| 0 <= i < j < freed.queue.len() implies
            freed.queue[i].accepted_sequence.0 < freed.queue[j].accepted_sequence.0 by {
            assert(freed.queue[i] == model.queue[i + 1]);
            assert(freed.queue[j] == model.queue[j + 1]);
        }
        assert forall|i: int| 0 <= i < freed.queue.len() implies (
        #[trigger] freed.queue[i]).accepted_sequence.0 <= model.accepted by {
            assert(freed.queue[i] == model.queue[i + 1]);
        }
    }
}

/// Binding neither loses nor duplicates a message.
pub proof fn law_bind_conserves_messages<M>(model: MailboxModel<M>, binding: Binding)
    requires
        model.wf(),
        model.phase is Unbound,
        model.kind == Some(binding.kind),
    ensures
        holdings(model) == holdings(model.bound(binding)).add(
            contents(model.bind_effects(binding).displaced),
        ),
{
    let observed = model.binding_observed(binding);
    assert forall|i: int| 0 <= i < model.waiters.len() implies owned(
        (#[trigger] model.waiters[i]).1,
    ) == owned(observed.waiters[i].1) by {}
    lemma_carried_congruent(model.waiters, observed.waiters);
    assert forall|i: int| 0 <= i < observed.waiters.len() implies (
    #[trigger] observed.waiters[i]).1.is_waiting() by {
        assert(model.waiters[i].1.is_waiting());
    }
    lemma_promotion_conserves(observed, binding, observed.promotable(binding.kind));
}

/// Freezing, closing, terminating and discharging neither lose nor duplicate a
/// message: closing and terminating hand out exactly what was unread.
pub proof fn law_lifecycle_conserves_messages<M>(model: MailboxModel<M>, incarnation: Incarnation)
    requires
        model.wf(),
    ensures
        holdings(model.frozen(incarnation)) == holdings(model),
        holdings(model) == holdings(model.closed()).add(contents(model.queue)).add(
            contents(optional(model.latest)),
        ),
        !(model.phase is Terminal) ==> holdings(model) == holdings(model.terminal()).add(
            contents(model.queue),
        ).add(contents(optional(model.latest))),
        model.phase is Terminal ==> holdings(model.discharged()) == holdings(model),
{
    assert(contents(Seq::<Envelope<M>>::empty()) =~= Multiset::empty());
    assert(carried(Seq::<(u64, SendOperation<M>)>::empty()) =~= Multiset::empty());
    assert(holdings(model) =~= holdings(model.closed()).add(contents(model.queue)).add(
        contents(optional(model.latest)),
    ));
    if !(model.phase is Terminal) {
        assert(model.detached =~= seq![]);
        assert(holdings(model) =~= holdings(model.terminal()).add(contents(model.queue)).add(
            contents(optional(model.latest)),
        ));
    } else {
        let rows = model.terminated_rows();
        assert forall|i: int| 0 <= i < model.detached.len() implies owned(
            (#[trigger] model.detached[i]).1,
        ) == owned(rows[i].1) by {
            assert(model.detached[i].1.is_waiting());
        }
        lemma_carried_congruent(model.detached, rows);
        lemma_carried_add(model.settled, rows);
        assert(holdings(model.discharged()) =~= holdings(model));
    }
}

/// Withdrawing a send neither loses nor duplicates a message: the send's own
/// message comes back unless it was accepted.
pub proof fn law_withdraw_conserves_messages<M>(model: MailboxModel<M>, id: u64)
    requires
        model.wf(),
    ensures
        holdings(model) == holdings(model.without(id)).add(recovered(model.withdrawal(id))),
{
    if has_key(model.waiters, id) {
        lemma_carried_remove(model.waiters, index_of(model.waiters, id));
    } else if has_key(model.detached, id) {
        lemma_carried_remove(model.detached, index_of(model.detached, id));
    } else if has_key(model.settled, id) {
        lemma_carried_remove(model.settled, index_of(model.settled, id));
    }
    assert(holdings(model) =~= holdings(model.without(id)).add(recovered(model.withdrawal(id))));
}

/// A send is withdrawn at most once: afterwards its id names nothing.
pub proof fn law_withdrawal_happens_once<M>(model: MailboxModel<M>, id: u64)
    requires
        model.wf(),
    ensures
        !model.without(id).live(id),
        model.without(id).withdrawal(id) is None,
        model.without(id).without(id) == model.without(id),
{
    let after = model.without(id);
    if has_key(after.waiters, id) {
        let j = index_of(after.waiters, id);
        assert(after.waiters[j].0 == id);
        if has_key(model.waiters, id) {
            let k = index_of(model.waiters, id);
            let origin = if j < k { j } else { j + 1 };
            assert(after.waiters[j] == model.waiters[origin]);
            lemma_index_is_unique(model.waiters, origin);
        }
    }
    if has_key(after.detached, id) {
        let j = index_of(after.detached, id);
        assert(after.detached[j].0 == id);
        if has_key(model.detached, id) {
            let k = index_of(model.detached, id);
            if !has_key(model.waiters, id) {
                let origin = if j < k { j } else { j + 1 };
                assert(after.detached[j] == model.detached[origin]);
                lemma_index_is_unique(model.detached, origin);
            } else {
                lemma_tables_disjoint(model, id);
            }
        }
    }
    if has_key(after.settled, id) {
        let j = index_of(after.settled, id);
        assert(after.settled[j].0 == id);
        lemma_tables_disjoint(model, id);
        if has_key(model.settled, id) {
            let k = index_of(model.settled, id);
            if !has_key(model.waiters, id) && !has_key(model.detached, id) {
                let origin = if j < k { j } else { j + 1 };
                assert(after.settled[j] == model.settled[origin]);
                lemma_index_is_unique(model.settled, origin);
            }
        }
    }
}

/// An id names a send in one place only.
proof fn lemma_tables_disjoint<M>(model: MailboxModel<M>, id: u64)
    requires
        model.wf(),
    ensures
        has_key(model.waiters, id) ==> !has_key(model.detached, id) && !has_key(model.settled, id),
        has_key(model.detached, id) ==> !has_key(model.settled, id),
{
    if has_key(model.settled, id) {
        let s = index_of(model.settled, id);
        assert(model.settled[s].0 == id);
        if has_key(model.waiters, id) {
            let w = index_of(model.waiters, id);
            assert(model.settled[s].0 < model.waiters[w].0);
        }
        if has_key(model.detached, id) {
            let d = index_of(model.detached, id);
            assert(model.settled[s].0 < model.detached[d].0);
        }
    }
}

/// Waiter ids are never reused: a newly parked send's id named nothing before.
pub proof fn law_parked_ids_are_fresh<M>(model: MailboxModel<M>, message: M)
    requires
        model.wf(),
        model.last_id < u64::MAX,
        model.submission(message) is Parked,
    ensures
        !model.live(model.submission(message)->Parked_0.0),
        model.submitted(message).live(model.submission(message)->Parked_0.0),
{
    let id = model.submission(message)->Parked_0.0;
    let after = model.submitted(message);
    assert(after.waiters[after.waiters.len() - 1].0 == id);
    assert(has_key(after.waiters, id));
    if has_key(model.waiters, id) {
        assert(model.waiters[index_of(model.waiters, id)].0 <= model.last_id);
    }
    if has_key(model.detached, id) {
        assert(model.detached[index_of(model.detached, id)].0 <= model.last_id);
    }
    if has_key(model.settled, id) {
        assert(model.settled[index_of(model.settled, id)].0 <= model.last_id);
    }
}

/// A queue mailbox never holds more than its capacity, and a latest-value
/// mailbox never more than one message.
pub proof fn law_capacity_is_never_exceeded<M>(model: MailboxModel<M>, binding: Binding)
    requires
        model.wf(),
        model.phase == Phase::Bound(binding) || model.phase == Phase::Frozen(binding),
    ensures
        binding.kind matches ResolvedMailbox::Queue(capacity) ==> model.queue.len() <= capacity@
            && model.latest is None,
        binding.kind is Latest ==> model.queue.len() == 0,
{
}

/// Nobody overtakes a parked send: a submission is accepted at once only where
/// none waits, and a parked one waits behind all others.
pub proof fn law_no_send_overtakes_a_parked_one<M>(model: MailboxModel<M>, message: M)
    requires
        model.wf(),
    ensures
        model.submission(message) is Accepted ==> model.waiters.len() == 0,
        model.submission(message) is Parked ==> model.submitted(message).waiters.drop_last()
            == model.waiters,
{
    if model.submission(message) is Parked {
        assert(model.submitted(message).waiters.drop_last() =~= model.waiters);
    }
}

/// Nothing is accepted unless an incarnation is bound and live: while the
/// mailbox is unbound, frozen or terminal a submission leaves the accepted
/// messages as they are.
pub proof fn law_only_a_live_mailbox_accepts<M>(model: MailboxModel<M>, message: M)
    requires
        !(model.phase is Bound),
    ensures
        !(model.submission(message) is Accepted),
        model.submitted(message).queue == model.queue,
        model.submitted(message).latest == model.latest,
        model.submitted(message).accepted == model.accepted,
{
}

/// A live mailbox with room accepts: a message is parked only behind an older
/// one or behind a full queue.
pub proof fn law_a_live_mailbox_with_room_accepts<M>(
    model: MailboxModel<M>,
    binding: Binding,
    message: M,
)
    requires
        model.wf(),
        model.phase == Phase::Bound(binding),
    ensures
        model.submission(message) is Accepted <==> has_room(binding.kind, model.queue.len())
            && model.waiters.len() == 0,
        has_room(binding.kind, model.queue.len()) ==> model.submission(message) is Accepted,
{
}

/// Messages are delivered in the order they were accepted: whatever is
/// delivered next was accepted later.
pub proof fn law_delivery_follows_acceptance_order<M>(
    model: MailboxModel<M>,
    incarnation: Incarnation,
    mode: ReceiveMode,
    next_mode: ReceiveMode,
)
    requires
        model.wf(),
        model.accepted < u64::MAX,
    ensures
        model.received(incarnation, mode) matches Some(first) ==> (model.after_receive(
            incarnation,
            mode,
        ).received(incarnation, next_mode) matches Some(second) ==> first.accepted_sequence.0
            < second.accepted_sequence.0),
        model.received(incarnation, mode) matches Some(first) ==> first.accepted_sequence.0
            <= model.accepted,
        model.after_receive(incarnation, mode).accepted >= model.accepted,
{
    if let Some(first) = model.received(incarnation, mode) {
        let binding = model.receiving(incarnation, mode)->Some_0;
        let freed = model.without_next(binding.kind);
        let after = model.after_receive(incarnation, mode);
        if binding.kind is Queue {
            assert(freed.queue.len() + 1 == model.queue.len());
            if freed.queue.len() > 0 {
                assert(freed.queue[0] == model.queue[1]);
                assert(model.queue[0].accepted_sequence.0 < model.queue[1].accepted_sequence.0);
            }
            if model.phase is Bound {
                let count = freed.promotable(binding.kind);
                assert(count <= 1);
                if after.queue.len() > 0 {
                    if freed.queue.len() > 0 {
                        assert(after.queue[0] == freed.queue[0]);
                    } else {
                        assert(after.queue[0] == freed.promoted_envelope(0));
                    }
                }
            }
        } else if model.phase is Bound {
            assert(freed.promotable(binding.kind) == 0);
            assert(freed.slot_history(0) =~= seq![]);
        }
    }
}

/// Every accepted message gets a position after all earlier ones.
pub proof fn law_acceptance_positions_increase<M>(
    model: MailboxModel<M>,
    binding: Binding,
    message: M,
)
    requires
        model.wf(),
        model.phase == Phase::Bound(binding),
        model.submission(message) is Accepted,
        model.accepted < u64::MAX,
    ensures
        model.submitted(message).accepted == model.accepted + 1,
        binding.kind is Queue ==> model.submitted(message).queue.last().accepted_sequence.0
            == model.accepted + 1 && model.submitted(message).queue.drop_last() == model.queue,
        binding.kind is Latest ==> (model.submitted(message).latest matches Some(envelope)
            && envelope.message == message && envelope.accepted_sequence.0 == model.accepted + 1),
{
    if binding.kind is Queue {
        assert(model.submitted(message).queue.drop_last() =~= model.queue);
    }
}

/// Freezing keeps every accepted message drainable in the same order, and is
/// idempotent.
pub proof fn law_freezing_keeps_the_accepted_prefix<M>(
    model: MailboxModel<M>,
    incarnation: Incarnation,
)
    requires
        model.wf(),
    ensures
        model.frozen(incarnation).queue == model.queue,
        model.frozen(incarnation).latest == model.latest,
        model.frozen(incarnation).frozen(incarnation) == model.frozen(incarnation),
        model.phase.observed() == Some(incarnation) ==> model.frozen(incarnation).received(
            incarnation,
            ReceiveMode::Drain,
        ) == model.received(incarnation, ReceiveMode::Drain),
        !(model.frozen(incarnation).phase is Bound && model.frozen(
            incarnation,
        ).phase.observed() == Some(incarnation)),
{
}

/// A closed incarnation reads nothing more, and senders parked behind it stay
/// parked in order.
pub proof fn law_a_closed_incarnation_reads_nothing<M>(
    model: MailboxModel<M>,
    incarnation: Incarnation,
    mode: ReceiveMode,
)
    requires
        model.wf(),
    ensures
        model.closed().received(incarnation, mode) is None,
        model.closed().waiters == model.waiters,
        model.terminal().received(incarnation, mode) is None,
{
}

/// Binding accepts parked sends strictly oldest first: those it cannot take
/// are the youngest, still in order.
pub proof fn law_binding_promotes_the_oldest_first<M>(model: MailboxModel<M>, binding: Binding)
    requires
        model.wf(),
        model.phase is Unbound,
        model.kind == Some(binding.kind),
    ensures
        ({
            let count = model.binding_observed(binding).promotable(binding.kind);
            &&& model.bound(binding).waiters == all_observed(
                model.waiters,
                binding.incarnation,
            ).skip(count as int)
            &&& count == model.waiters.len() || !has_room(
                binding.kind,
                model.bound(binding).queue.len(),
            )
            &&& forall|i: int| #![trigger model.waiters[i]]
                0 <= i < count ==> model.bound(binding).settled[model.settled.len() + i] == (
                    model.waiters[i].0,
                    SendOperation::<M> {
                        outcome: OperationOutcome::Accepted(binding.incarnation),
                        waker: None,
                    },
                )
        }),
{
    let observed = model.binding_observed(binding);
    let count = observed.promotable(binding.kind);
    assert forall|i: int| #![trigger model.waiters[i]] 0 <= i < count implies model.bound(
        binding,
    ).settled[model.settled.len() + i] == (
        model.waiters[i].0,
        SendOperation::<M> {
            outcome: OperationOutcome::Accepted(binding.incarnation),
            waker: None,
        },
    ) by {
        assert(observed.promoted_rows(binding.incarnation, count)[i].0 == observed.waiters[i].0);
    }
}

/// Termination answers every parked send with its own message: once discharged,
/// withdrawing it reports the last incarnation bound.
pub proof fn law_termination_returns_every_parked_message<M>(
    model: MailboxModel<M>,
    index: int,
)
    requires
        model.wf(),
        !(model.phase is Terminal),
        0 <= index < model.waiters.len(),
    ensures
        model.terminal().discharged().waiters.len() == 0,
        model.terminal().discharged().detached.len() == 0,
        model.terminal().discharged().withdrawal(model.waiters[index].0) == Some(
            WithdrawalOutcome::Terminated {
                message: waiting_message(model.waiters[index]),
                observed: model.last_bound,
            },
        ),
{
    let after = model.terminal().discharged();
    let id = model.waiters[index].0;
    let place = model.settled.len() + index;
    let rows = model.terminal().terminated_rows();
    assert(model.waiters[index].1.is_waiting());
    assert(after.settled[place] == rows[index]);
    assert(rows[index].0 == id);
    assert forall|i: int, j: int| 0 <= i < j < after.settled.len() implies after.settled[i].0
        < after.settled[j].0 by {
        if j >= model.settled.len() {
            let b = j - model.settled.len();
            assert(after.settled[j] == rows[b]);
            if i >= model.settled.len() {
                let a = i - model.settled.len();
                assert(after.settled[i] == rows[a]);
                assert(model.waiters[a].0 < model.waiters[b].0);
            } else {
                assert(model.settled[i].0 < model.waiters[b].0);
            }
        }
    }
    lemma_index_is_unique(after.settled, place);
}

/// A send withdrawn after termination was decided but before it was discharged
/// still comes back as withdrawn, with its own message.
pub proof fn law_withdrawal_may_beat_the_discharge<M>(model: MailboxModel<M>, index: int)
    requires
        model.wf(),
        !(model.phase is Terminal),
        0 <= index < model.waiters.len(),
    ensures
        model.terminal().withdrawal(model.waiters[index].0) matches Some(
            WithdrawalOutcome::Withdrawn { message, .. },
        ) && message == waiting_message(model.waiters[index]),
{
    assert(model.waiters[index].1.is_waiting());
    lemma_index_is_unique(model.waiters, index);
}

/// Polling never changes what a send will come to: a waiting one keeps its
/// message and place, and its mailbox keeps every message it holds.
pub proof fn law_polling_a_waiting_send_keeps_it<M>(
    model: MailboxModel<M>,
    id: u64,
    replacement: Option<WakerId>,
)
    requires
        model.wf(),
        has_key(model.waiters, id) || has_key(model.detached, id),
    ensures
        holdings(model.polled(id, replacement)) == holdings(model),
        model.polled(id, replacement).live(id),
{
    let after = model.polled(id, replacement);
    if has_key(model.waiters, id) {
        let index = index_of(model.waiters, id);
        assert(after.waiters[index].0 == id);
        assert forall|i: int| 0 <= i < model.waiters.len() implies owned(
            (#[trigger] model.waiters[i]).1,
        ) == owned(after.waiters[i].1) by {}
        lemma_carried_congruent(model.waiters, after.waiters);
        assert(has_key(after.waiters, id));
    } else {
        let index = index_of(model.detached, id);
        assert(after.detached[index].0 == id);
        assert forall|i: int| 0 <= i < model.detached.len() implies owned(
            (#[trigger] model.detached[i]).1,
        ) == owned(after.detached[i].1) by {}
        lemma_carried_congruent(model.detached, after.detached);
        assert(has_key(after.detached, id));
    }
}

} // verus!
