//! The mailbox as a mathematical state machine.

use crate::identity::Incarnation;
use crate::mailbox::operation::{
    OperationOutcome, SendOperation, WakerEffect, WakerId, WithdrawalDisposition, WithdrawalOutcome,
};
use crate::mailbox::state::{
    all_observed, all_waiting, AcceptedSequence, Binding, Envelope, Phase, ReceiveMode,
};
use crate::policy::ResolvedMailbox;
use crate::table::{ascending, has_key, index_of, keys_at_most};
use vstd::prelude::*;

verus! {

/// Everything a mailbox holds.
#[verifier::ext_equal]
pub struct MailboxModel<M> {
    /// The owning actor's id.
    pub actor: Seq<char>,
    /// Tells this mailbox's bind tokens from any other mailbox's.
    pub serial: u64,
    /// The configured kind.
    pub kind: Option<ResolvedMailbox>,
    /// Which bind permit is current.
    pub permit: u64,
    /// Whether the current permit was claimed.
    pub permit_claimed: bool,
    /// The binding lifecycle.
    pub phase: Phase,
    /// The newest incarnation ever bound.
    pub last_bound: Option<Incarnation>,
    /// Sends parked behind the mailbox, oldest first.
    pub waiters: Seq<(u64, SendOperation<M>)>,
    /// The last waiter id handed out.
    pub last_id: u64,
    /// Sends a termination has detached but not yet discharged.
    pub detached: Seq<(u64, SendOperation<M>)>,
    /// Sends decided but not yet observed by their sender.
    pub settled: Seq<(u64, SendOperation<M>)>,
    /// Accepted messages of a queue mailbox, oldest first.
    pub queue: Seq<Envelope<M>>,
    /// The accepted message of a latest-value mailbox.
    pub latest: Option<Envelope<M>>,
    /// How many messages have ever been accepted.
    pub accepted: u64,
}

/// What one transition owes its surroundings.
#[verifier::ext_equal]
pub struct EffectsModel<M> {
    /// Whether watchers of the mailbox are to be told of a change.
    pub pulse: bool,
    /// Messages a newer one replaced.
    pub displaced: Seq<Envelope<M>>,
    /// Whether the displaced messages go to the disposal lane.
    pub isolate_displaced: bool,
    /// Wakers to run or destroy, in order.
    pub wakers: Seq<WakerEffect>,
}

/// No effects at all.
pub open spec fn no_effects<M>() -> EffectsModel<M> {
    EffectsModel { pulse: false, displaced: seq![], isolate_displaced: false, wakers: seq![] }
}

/// Whether a mailbox of this kind holding `queued` messages takes another.
pub open spec fn has_room(kind: ResolvedMailbox, queued: nat) -> bool {
    match kind {
        ResolvedMailbox::Queue(capacity) => queued < capacity@,
        ResolvedMailbox::Latest => true,
    }
}

/// Whether every row was accepted or terminated.
pub open spec fn all_decided<M>(rows: Seq<(u64, SendOperation<M>)>) -> bool {
    forall|i: int|
        0 <= i < rows.len() ==> (#[trigger] rows[i]).1.outcome is Accepted
            || rows[i].1.outcome is Terminated
}

/// Whether every key of `older` comes before every key of `newer`.
pub open spec fn keys_before<M>(
    older: Seq<(u64, SendOperation<M>)>,
    newer: Seq<(u64, SendOperation<M>)>,
) -> bool {
    forall|i: int, j: int|
        #![trigger older[i], newer[j]]
        0 <= i < older.len() && 0 <= j < newer.len() ==> older[i].0 < newer[j].0
}

/// Whether the envelopes stand in acceptance order, none past `accepted`.
pub open spec fn in_order<M>(envelopes: Seq<Envelope<M>>, accepted: u64) -> bool {
    &&& forall|i: int, j: int|
        0 <= i < j < envelopes.len() ==> envelopes[i].accepted_sequence.0
            < envelopes[j].accepted_sequence.0
    &&& forall|i: int|
        0 <= i < envelopes.len() ==> (#[trigger] envelopes[i]).accepted_sequence.0 <= accepted
}

/// The message a waiting row carries.
pub open spec fn waiting_message<M>(row: (u64, SendOperation<M>)) -> M {
    row.1.outcome->Waiting_message
}

/// The wakes owed to a run of rows, in order.
pub open spec fn wakes_of<M>(rows: Seq<(u64, SendOperation<M>)>) -> Seq<WakerEffect>
    decreases rows.len(),
{
    if rows.len() == 0 {
        seq![]
    } else {
        wakes_of(rows.drop_last()) + rows.last().1.wakes()
    }
}

/// A sequence of at most one element.
pub open spec fn optional<T>(value: Option<T>) -> Seq<T> {
    match value {
        Some(item) => seq![item],
        None => seq![],
    }
}

/// The last element, if any.
pub open spec fn last_of<T>(items: Seq<T>) -> Option<T> {
    if items.len() == 0 {
        None
    } else {
        Some(items.last())
    }
}

/// All elements but the last.
pub open spec fn all_but_last<T>(items: Seq<T>) -> Seq<T> {
    if items.len() == 0 {
        items
    } else {
        items.drop_last()
    }
}

/// What submitting a message came to, by value.
pub enum Submission<M> {
    /// Accepted at once.
    Accepted(Incarnation),
    /// Parked under this id.
    Parked(crate::mailbox::state::WaiterId),
    /// The mailbox had terminated; the message comes back.
    Terminated {
        /// The unaccepted message.
        message: M,
        /// The last incarnation the mailbox was bound to.
        final_incarnation: Option<Incarnation>,
    },
}

impl<M> MailboxModel<M> {
    /// What holds of every mailbox between transitions: it is consistent, and
    /// a live one has no waiters unless it is full.
    pub open spec fn wf(self) -> bool {
        &&& self.consistent()
        &&& self.phase matches Phase::Bound(binding) ==> (self.waiters.len() > 0 ==> !has_room(
            binding.kind,
            self.queue.len(),
        ))
    }

    /// What holds of every mailbox at any time.
    pub open spec fn consistent(self) -> bool {
        &&& ascending(self.waiters)
        &&& keys_at_most(self.waiters, self.last_id)
        &&& all_waiting(self.waiters)
        &&& ascending(self.detached)
        &&& all_waiting(self.detached)
        &&& ascending(self.settled)
        &&& all_decided(self.settled)
        &&& keys_before(self.settled, self.waiters)
        &&& keys_before(self.settled, self.detached)
        &&& self.phase is Terminal ==> self.waiters.len() == 0
        &&& !(self.phase is Terminal) ==> self.detached.len() == 0
        &&& keys_at_most(self.detached, self.last_id)
        &&& keys_at_most(self.settled, self.last_id)
        &&& in_order(self.queue, self.accepted)
        &&& self.latest matches Some(envelope) ==> envelope.accepted_sequence.0 <= self.accepted
        &&& self.stored()
    }

    /// Where accepted messages can be, by phase and kind.
    pub open spec fn stored(self) -> bool {
        match self.phase {
            Phase::Unbound => self.queue.len() == 0 && self.latest is None,
            Phase::Bound(binding) => self.bound_as(binding),
            Phase::Frozen(binding) => self.bound_as(binding),
            Phase::Terminal(final_incarnation) => {
                &&& self.queue.len() == 0
                &&& self.latest is None
                &&& final_incarnation == self.last_bound
            },
        }
    }

    /// Whether the mailbox is configured and filled as `binding` allows.
    pub open spec fn bound_as(self, binding: Binding) -> bool {
        &&& self.kind == Some(binding.kind)
        &&& self.last_bound == Some(binding.incarnation)
        &&& match binding.kind {
            ResolvedMailbox::Queue(capacity) => self.latest is None && self.queue.len()
                <= capacity@,
            ResolvedMailbox::Latest => self.queue.len() == 0,
        }
    }

    /// Whether the mailbox, bound as `kind`, accepts a new message now. Parked
    /// sends are older than a new one, so any waiter makes it full.
    pub open spec fn accepts_now(self, kind: ResolvedMailbox) -> bool {
        self.waiters.len() == 0 && has_room(kind, self.queue.len())
    }

    /// The envelope the next accepted message travels in.
    pub open spec fn next_envelope(self, message: M) -> Envelope<M> {
        Envelope { message, accepted_sequence: AcceptedSequence((self.accepted + 1) as u64) }
    }

    /// The mailbox with one more message accepted.
    pub open spec fn pushed(self, kind: ResolvedMailbox, message: M) -> MailboxModel<M> {
        match kind {
            ResolvedMailbox::Queue(_) => MailboxModel {
                queue: self.queue.push(self.next_envelope(message)),
                accepted: (self.accepted + 1) as u64,
                ..self
            },
            ResolvedMailbox::Latest => MailboxModel {
                latest: Some(self.next_envelope(message)),
                accepted: (self.accepted + 1) as u64,
                ..self
            },
        }
    }

    /// What accepting a message displaces.
    pub open spec fn displaced_by_push(self, kind: ResolvedMailbox) -> Seq<Envelope<M>> {
        match kind {
            ResolvedMailbox::Queue(_) => seq![],
            ResolvedMailbox::Latest => optional(self.latest),
        }
    }

    /// The effects of accepting a message from a live sender.
    pub open spec fn acceptance_effects(self, kind: ResolvedMailbox) -> EffectsModel<M> {
        EffectsModel { pulse: true, displaced: self.displaced_by_push(kind), ..no_effects() }
    }

    /// The mailbox with a fresh send parked.
    pub open spec fn parked(
        self,
        message: M,
        newest_observed: Option<Incarnation>,
    ) -> MailboxModel<M> {
        MailboxModel {
            waiters: self.waiters.push(
                ((self.last_id + 1) as u64, SendOperation::waiting(message, newest_observed)),
            ),
            last_id: (self.last_id + 1) as u64,
            ..self
        }
    }

    /// The mailbox after `message` was submitted.
    pub open spec fn submitted(self, message: M) -> MailboxModel<M> {
        match self.phase {
            Phase::Terminal(_) => self,
            Phase::Bound(binding) => if self.accepts_now(binding.kind) {
                self.pushed(binding.kind, message)
            } else {
                self.parked(message, Some(binding.incarnation))
            },
            Phase::Frozen(binding) => self.parked(message, Some(binding.incarnation)),
            Phase::Unbound => self.parked(message, None),
        }
    }

    /// What submitting `message` reports.
    pub open spec fn submission(self, message: M) -> Submission<M> {
        match self.phase {
            Phase::Terminal(final_incarnation) => Submission::Terminated {
                message,
                final_incarnation,
            },
            Phase::Bound(binding) if self.accepts_now(binding.kind) => Submission::Accepted(
                binding.incarnation,
            ),
            _ => Submission::Parked(
                crate::mailbox::state::WaiterId((self.last_id + 1) as u64),
            ),
        }
    }

    /// The effects of submitting a message.
    pub open spec fn submission_effects(self) -> EffectsModel<M> {
        match self.phase {
            Phase::Bound(binding) if self.accepts_now(binding.kind) => self.acceptance_effects(
                binding.kind,
            ),
            _ => no_effects(),
        }
    }

    /// How many parked sends a mailbox of this kind has room for.
    pub open spec fn promotable(self, kind: ResolvedMailbox) -> nat {
        match kind {
            ResolvedMailbox::Queue(capacity) => if capacity@ <= self.queue.len() {
                0
            } else if self.waiters.len() <= capacity@ - self.queue.len() {
                self.waiters.len()
            } else {
                (capacity@ - self.queue.len()) as nat
            },
            ResolvedMailbox::Latest => self.waiters.len(),
        }
    }

    /// The envelope the `i`th parked send is accepted in.
    pub open spec fn promoted_envelope(self, i: int) -> Envelope<M> {
        Envelope {
            message: waiting_message(self.waiters[i]),
            accepted_sequence: AcceptedSequence((self.accepted + 1 + i) as u64),
        }
    }

    /// The envelopes of the first `count` parked sends.
    pub open spec fn promoted_envelopes(self, count: nat) -> Seq<Envelope<M>> {
        Seq::new(count, |i: int| self.promoted_envelope(i))
    }

    /// The first `count` parked sends, decided by acceptance.
    pub open spec fn promoted_rows(self, incarnation: Incarnation, count: nat) -> Seq<
        (u64, SendOperation<M>),
    > {
        Seq::new(
            count,
            |i: int|
                (
                    self.waiters[i].0,
                    SendOperation {
                        outcome: OperationOutcome::Accepted(incarnation),
                        waker: None,
                    },
                ),
        )
    }

    /// The latest-value slot's history as `count` parked sends pass through it.
    pub open spec fn slot_history(self, count: nat) -> Seq<Envelope<M>> {
        optional(self.latest) + self.promoted_envelopes(count)
    }

    /// The mailbox once its oldest `count` parked sends were accepted.
    pub open spec fn promoted(self, binding: Binding, count: nat) -> MailboxModel<M> {
        MailboxModel {
            waiters: self.waiters.skip(count as int),
            settled: self.settled + self.promoted_rows(binding.incarnation, count),
            queue: match binding.kind {
                ResolvedMailbox::Queue(_) => self.queue + self.promoted_envelopes(count),
                ResolvedMailbox::Latest => self.queue,
            },
            latest: match binding.kind {
                ResolvedMailbox::Queue(_) => self.latest,
                ResolvedMailbox::Latest => last_of(self.slot_history(count)),
            },
            accepted: (self.accepted + count) as u64,
            ..self
        }
    }

    /// The messages that promoting `count` parked sends displaces.
    pub open spec fn displaced_by_promotion(self, kind: ResolvedMailbox, count: nat) -> Seq<
        Envelope<M>,
    > {
        match kind {
            ResolvedMailbox::Queue(_) => seq![],
            ResolvedMailbox::Latest => all_but_last(self.slot_history(count)),
        }
    }

    /// The wakes that promoting `count` parked sends owes.
    pub open spec fn promotion_wakes(self, count: nat) -> Seq<WakerEffect> {
        wakes_of(self.waiters.take(count as int))
    }

    /// The binding through which `incarnation` may receive in `mode`.
    pub open spec fn receiving(self, incarnation: Incarnation, mode: ReceiveMode) -> Option<
        Binding,
    > {
        match self.phase {
            Phase::Bound(binding) => if binding.incarnation == incarnation {
                Some(binding)
            } else {
                None
            },
            Phase::Frozen(binding) => if mode is Drain && binding.incarnation == incarnation {
                Some(binding)
            } else {
                None
            },
            _ => None,
        }
    }

    /// The oldest accepted message.
    pub open spec fn next_unread(self, kind: ResolvedMailbox) -> Option<Envelope<M>> {
        match kind {
            ResolvedMailbox::Queue(_) => if self.queue.len() > 0 {
                Some(self.queue[0])
            } else {
                None
            },
            ResolvedMailbox::Latest => self.latest,
        }
    }

    /// The message a receive by `incarnation` in `mode` yields.
    pub open spec fn received(self, incarnation: Incarnation, mode: ReceiveMode) -> Option<
        Envelope<M>,
    > {
        match self.receiving(incarnation, mode) {
            Some(binding) => match self.next_unread(binding.kind) {
                Some(envelope) => if mode.admits(envelope.accepted_sequence) {
                    Some(envelope)
                } else {
                    None
                },
                None => None,
            },
            None => None,
        }
    }

    /// The mailbox without its oldest accepted message.
    pub open spec fn without_next(self, kind: ResolvedMailbox) -> MailboxModel<M> {
        match kind {
            ResolvedMailbox::Queue(_) => MailboxModel { queue: self.queue.skip(1), ..self },
            ResolvedMailbox::Latest => MailboxModel { latest: None, ..self },
        }
    }

    /// The mailbox after a receive by `incarnation` in `mode`: a live mailbox
    /// admits the parked sends it now has room for.
    pub open spec fn after_receive(self, incarnation: Incarnation, mode: ReceiveMode) -> MailboxModel<
        M,
    > {
        match self.received(incarnation, mode) {
            None => self,
            Some(_) => match self.phase {
                Phase::Bound(binding) => {
                    let freed = self.without_next(binding.kind);
                    freed.promoted(binding, freed.promotable(binding.kind))
                },
                Phase::Frozen(binding) => self.without_next(binding.kind),
                _ => self,
            },
        }
    }

    /// The effects of that receive.
    pub open spec fn receive_effects(self, incarnation: Incarnation, mode: ReceiveMode) -> EffectsModel<
        M,
    > {
        match (self.received(incarnation, mode), self.phase) {
            (Some(_), Phase::Bound(binding)) => {
                let freed = self.without_next(binding.kind);
                let count = freed.promotable(binding.kind);
                EffectsModel {
                    displaced: freed.displaced_by_promotion(binding.kind, count),
                    wakers: freed.promotion_wakes(count),
                    ..no_effects()
                }
            },
            _ => no_effects(),
        }
    }

    /// The mailbox, unbound and configured as `kind`, right after `incarnation`
    /// bound and before any promotion.
    pub open spec fn binding_observed(self, binding: Binding) -> MailboxModel<M> {
        MailboxModel {
            permit_claimed: true,
            phase: Phase::Bound(binding),
            last_bound: Some(binding.incarnation),
            waiters: all_observed(self.waiters, binding.incarnation),
            ..self
        }
    }

    /// The mailbox once `binding` took effect.
    pub open spec fn bound(self, binding: Binding) -> MailboxModel<M> {
        let observed = self.binding_observed(binding);
        observed.promoted(binding, observed.promotable(binding.kind))
    }

    /// The effects of that binding.
    pub open spec fn bind_effects(self, binding: Binding) -> EffectsModel<M> {
        let observed = self.binding_observed(binding);
        let count = observed.promotable(binding.kind);
        EffectsModel {
            pulse: true,
            displaced: observed.displaced_by_promotion(binding.kind, count),
            isolate_displaced: true,
            wakers: observed.promotion_wakes(count),
        }
    }

    /// The mailbox after freezing `incarnation`.
    pub open spec fn frozen(self, incarnation: Incarnation) -> MailboxModel<M> {
        match self.phase {
            Phase::Bound(binding) if binding.incarnation == incarnation => MailboxModel {
                phase: Phase::Frozen(binding),
                ..self
            },
            _ => self,
        }
    }

    /// The mailbox after closing the observed incarnation: parked sends stay
    /// parked for the next one.
    pub open spec fn closed(self) -> MailboxModel<M> {
        MailboxModel {
            phase: Phase::Unbound,
            permit: (self.permit + 1) as u64,
            permit_claimed: false,
            queue: seq![],
            latest: None,
            ..self
        }
    }

    /// The mailbox once its termination is decided: parked sends are detached.
    pub open spec fn terminal(self) -> MailboxModel<M> {
        MailboxModel {
            phase: Phase::Terminal(self.last_bound),
            waiters: seq![],
            detached: self.waiters,
            queue: seq![],
            latest: None,
            ..self
        }
    }

    /// The detached sends, decided by termination.
    pub open spec fn terminated_rows(self) -> Seq<(u64, SendOperation<M>)> {
        Seq::new(
            self.detached.len(),
            |i: int| (self.detached[i].0, self.detached[i].1.terminated(self.last_bound)),
        )
    }

    /// The mailbox once every detached send was discharged.
    pub open spec fn discharged(self) -> MailboxModel<M> {
        MailboxModel {
            detached: seq![],
            settled: self.settled + self.terminated_rows(),
            ..self
        }
    }

    /// Whether `id` names a send that has not been taken back or observed.
    pub open spec fn live(self, id: u64) -> bool {
        has_key(self.waiters, id) || has_key(self.detached, id) || has_key(self.settled, id)
    }

    /// The send `id` names.
    pub open spec fn operation(self, id: u64) -> Option<SendOperation<M>> {
        if has_key(self.waiters, id) {
            Some(self.waiters[index_of(self.waiters, id)].1)
        } else if has_key(self.detached, id) {
            Some(self.detached[index_of(self.detached, id)].1)
        } else if has_key(self.settled, id) {
            Some(self.settled[index_of(self.settled, id)].1)
        } else {
            None
        }
    }

    /// The mailbox without the send `id` names.
    pub open spec fn without(self, id: u64) -> MailboxModel<M> {
        if has_key(self.waiters, id) {
            MailboxModel { waiters: self.waiters.remove(index_of(self.waiters, id)), ..self }
        } else if has_key(self.detached, id) {
            MailboxModel { detached: self.detached.remove(index_of(self.detached, id)), ..self }
        } else if has_key(self.settled, id) {
            MailboxModel { settled: self.settled.remove(index_of(self.settled, id)), ..self }
        } else {
            self
        }
    }

    /// How withdrawing the send `id` names finds it. A send that still waits
    /// reports the newest incarnation it saw, or the one observable now.
    pub open spec fn withdrawal(self, id: u64) -> Option<WithdrawalOutcome<M>> {
        match self.operation(id) {
            None => None,
            Some(operation) => match operation.outcome {
                OperationOutcome::Waiting { message, newest_observed } => Some(
                    WithdrawalOutcome::Withdrawn {
                        message,
                        observed: if newest_observed is Some {
                            newest_observed
                        } else {
                            self.phase.observed()
                        },
                    },
                ),
                OperationOutcome::Accepted(incarnation) => Some(
                    WithdrawalOutcome::Accepted(incarnation),
                ),
                OperationOutcome::Terminated { message, final_incarnation } => Some(
                    WithdrawalOutcome::Terminated { message, observed: final_incarnation },
                ),
                OperationOutcome::Retired => None,
            },
        }
    }

    /// What that withdrawal does with the registered waker.
    pub open spec fn withdrawal_wakers(self, id: u64, disposition: WithdrawalDisposition) -> Seq<
        WakerEffect,
    > {
        match self.operation(id) {
            None => seq![],
            Some(operation) => match operation.waker {
                Some(waker) => seq![disposition.effect(waker)],
                None => seq![],
            },
        }
    }

    /// The mailbox after polling the send `id` names: a waiting one registers
    /// `replacement`, a decided one is handed out.
    pub open spec fn polled(self, id: u64, replacement: Option<WakerId>) -> MailboxModel<M> {
        if has_key(self.waiters, id) {
            let index = index_of(self.waiters, id);
            MailboxModel {
                waiters: self.waiters.update(
                    index,
                    (id, self.waiters[index].1.after_poll(replacement)),
                ),
                ..self
            }
        } else if has_key(self.detached, id) {
            let index = index_of(self.detached, id);
            MailboxModel {
                detached: self.detached.update(
                    index,
                    (id, self.detached[index].1.after_poll(replacement)),
                ),
                ..self
            }
        } else {
            self.without(id)
        }
    }
}

} // verus!
