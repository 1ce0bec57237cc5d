//! Restart-stable mailbox state for one actor membership.

use crate::identity::{ChildId, Incarnation, MonotonicCounter};
use crate::mailbox::effects::{MailboxEffects, MailboxPayload};
use crate::mailbox::model::{
    all_but_last, last_of, no_effects, optional, waiting_message, wakes_of, EffectsModel,
    MailboxModel, Submission,
};
use crate::mailbox::operation::{
    OperationOutcome, OperationPoll, SendOperation, WakerEffect, WakerId, WithdrawalDisposition,
    WithdrawalOutcome,
};
use crate::mailbox::state::{
    all_waiting, AcceptedSequence, Binding, Envelope, Phase, ReceiveMode, WaiterId, WaiterQueue,
};
use crate::mailbox::{SendError, SendErrorKind};
use crate::policy::ResolvedMailbox;
use crate::table::OrderedTable;
use std::collections::VecDeque;
use vstd::prelude::*;

verus! {

/// The mailbox of one actor membership, stable across its incarnations.
#[derive(Debug)]
pub struct MailboxCell<M> {
    actor_id: ChildId,
    serial: u64,
    kind: Option<ResolvedMailbox>,
    permit: u64,
    permit_claimed: bool,
    phase: Phase,
    last_bound: Option<Incarnation>,
    waiters: WaiterQueue<M>,
    detached: OrderedTable<SendOperation<M>>,
    settled: OrderedTable<SendOperation<M>>,
    queue: VecDeque<Envelope<M>>,
    latest: Option<Envelope<M>>,
    accepted: MonotonicCounter,
}

impl<M> MailboxCell<M> {
    /// Everything the mailbox holds.
    pub closed spec fn view(&self) -> MailboxModel<M> {
        MailboxModel {
            actor: self.actor_id@,
            serial: self.serial,
            kind: self.kind,
            permit: self.permit,
            permit_claimed: self.permit_claimed,
            phase: self.phase,
            last_bound: self.last_bound,
            waiters: self.waiters@,
            last_id: self.waiters.last_id(),
            detached: self.detached@,
            settled: self.settled@,
            queue: self.queue@,
            latest: self.latest,
            accepted: self.accepted@,
        }
    }

    /// A mailbox nothing was ever bound to. `serial` tells its bind tokens from
    /// those of other mailboxes.
    pub fn new(actor_id: ChildId, serial: u64) -> (cell: MailboxCell<M>)
        ensures
            cell@ == (MailboxModel::<M> {
                actor: actor_id@,
                serial,
                kind: None,
                permit: 0,
                permit_claimed: false,
                phase: Phase::Unbound,
                last_bound: None,
                waiters: seq![],
                last_id: 0,
                detached: seq![],
                settled: seq![],
                queue: seq![],
                latest: None,
                accepted: 0,
            }),
            cell@.wf(),
    {
        MailboxCell {
            actor_id,
            serial,
            kind: None,
            permit: 0,
            permit_claimed: false,
            phase: Phase::Unbound,
            last_bound: None,
            waiters: WaiterQueue::new(),
            detached: OrderedTable::new(),
            settled: OrderedTable::new(),
            queue: VecDeque::new(),
            latest: None,
            accepted: MonotonicCounter::new(),
        }
    }

    /// Appends an accepted message; a latest-value mailbox displaces its prior
    /// value into the effects.
    fn push_accepted(
        &mut self,
        kind: ResolvedMailbox,
        message: M,
        effects: &mut MailboxEffects<M>,
    )
        requires
            old(self)@.accepted < u64::MAX,
        ensures
            final(self)@ == old(self)@.pushed(kind, message),
            final(self).waiters == old(self).waiters,
            final(effects)@ == (EffectsModel {
                displaced: old(effects)@.displaced + old(self)@.displaced_by_push(kind),
                ..old(effects)@
            }),
    {
        let sequence: u64 = self.accepted.mint();
        let envelope = Envelope { message, accepted_sequence: AcceptedSequence(sequence) };
        match kind {
            ResolvedMailbox::Queue(_) => {
                self.queue.push_back(envelope);
            },
            ResolvedMailbox::Latest => {
                let displaced = self.latest.take();
                self.latest = Some(envelope);
                if let Some(prior) = displaced {
                    effects.displaced.push(prior);
                }
            },
        }
    }

    /// Accepts `message` into a mailbox bound as `binding`, or hands it back
    /// when the mailbox is full.
    fn accept_locked(
        &mut self,
        binding: Binding,
        message: M,
        effects: &mut MailboxEffects<M>,
    ) -> (result: Result<Incarnation, M>)
        requires
            old(self)@.accepted < u64::MAX,
            old(effects)@ == no_effects::<M>(),
        ensures
            final(self).waiters == old(self).waiters,
            old(self)@.accepts_now(binding.kind) ==> {
                &&& result == Ok::<Incarnation, M>(binding.incarnation)
                &&& final(self)@ == old(self)@.pushed(binding.kind, message)
                &&& final(effects)@ == old(self)@.acceptance_effects(binding.kind)
            },
            !old(self)@.accepts_now(binding.kind) ==> {
                &&& result == Err::<Incarnation, M>(message)
                &&& final(self)@ == old(self)@
                &&& final(effects)@ == no_effects::<M>()
            },
    {
        if !self.waiters.is_empty() {
            return Err(message);
        }
        if let ResolvedMailbox::Queue(capacity) = binding.kind {
            if self.queue.len() >= capacity.get() {
                return Err(message);
            }
        }
        self.push_accepted(binding.kind, message, effects);
        effects.pulse();
        Ok(binding.incarnation)
    }

    /// Parks a fresh send.
    fn park(&mut self, message: M, newest_observed: Option<Incarnation>) -> (submission: Submission<
        M,
    >)
        requires
            old(self)@.wf(),
            old(self)@.last_id < u64::MAX,
        ensures
            final(self)@ == old(self)@.parked(message, newest_observed),
            submission == Submission::<M>::Parked(WaiterId((old(self)@.last_id + 1) as u64)),
    {
        Submission::Parked(self.waiters.park(message, newest_observed))
    }

    /// Submits a message: accepted at once, parked, or refused by a terminated
    /// mailbox.
    pub fn submit(&mut self, message: M) -> (outcome: (Submission<M>, MailboxEffects<M>))
        requires
            old(self)@.wf(),
            old(self)@.accepted < u64::MAX,
            old(self)@.last_id < u64::MAX,
        ensures
            final(self)@ == old(self)@.submitted(message),
            final(self)@.wf(),
            outcome.0 == old(self)@.submission(message),
            outcome.1@ == old(self)@.submission_effects(),
    {
        let mut effects = MailboxEffects::new();
        let submission = match self.phase {
            Phase::Terminal(final_incarnation) => Submission::Terminated {
                message,
                final_incarnation,
            },
            Phase::Bound(binding) => match self.accept_locked(binding, message, &mut effects) {
                Ok(incarnation) => Submission::Accepted(incarnation),
                Err(message) => self.park(message, Some(binding.incarnation)),
            },
            Phase::Frozen(binding) => self.park(message, Some(binding.incarnation)),
            Phase::Unbound => self.park(message, None),
        };
        (submission, effects)
    }

    /// Accepts a message only if that takes no waiting.
    pub fn try_send(&mut self, message: M) -> (outcome: (
        Result<Incarnation, SendError<M>>,
        MailboxEffects<M>,
    ))
        requires
            old(self)@.wf(),
            old(self)@.accepted < u64::MAX,
        ensures
            final(self)@.wf(),
            outcome.0 is Ok <==> (old(self)@.phase matches Phase::Bound(binding) && old(
                self,
            )@.accepts_now(binding.kind)),
            outcome.0 matches Ok(incarnation) ==> {
                let binding = old(self)@.phase->Bound_0;
                &&& incarnation == binding.incarnation
                &&& final(self)@ == old(self)@.pushed(binding.kind, message)
                &&& outcome.1@ == old(self)@.acceptance_effects(binding.kind)
            },
            outcome.0 matches Err(error) ==> {
                &&& final(self)@ == old(self)@
                &&& outcome.1@ == no_effects::<M>()
                &&& error.actor_id@ == old(self)@.actor
                &&& error.message == message
                &&& match old(self)@.phase {
                    Phase::Terminal(final_incarnation) => error.kind == SendErrorKind::Terminated
                        && error.incarnation_observed == final_incarnation,
                    Phase::Unbound => error.kind == SendErrorKind::NotRunning
                        && error.incarnation_observed is None,
                    Phase::Frozen(binding) => error.kind == SendErrorKind::NotRunning
                        && error.incarnation_observed == Some(binding.incarnation),
                    Phase::Bound(binding) => error.kind == SendErrorKind::Full
                        && error.incarnation_observed == Some(binding.incarnation),
                }
            },
    {
        let mut effects = MailboxEffects::new();
        let (incarnation_observed, kind, message) = match self.phase {
            Phase::Terminal(final_incarnation) => (
                final_incarnation,
                SendErrorKind::Terminated,
                message,
            ),
            Phase::Unbound => (None, SendErrorKind::NotRunning, message),
            Phase::Frozen(binding) => (
                Some(binding.incarnation),
                SendErrorKind::NotRunning,
                message,
            ),
            Phase::Bound(binding) => match self.accept_locked(binding, message, &mut effects) {
                Ok(incarnation) => {
                    return (Ok(incarnation), effects);
                },
                Err(message) => (Some(binding.incarnation), SendErrorKind::Full, message),
            },
        };
        let error = SendError {
            actor_id: self.actor_id.clone(),
            incarnation_observed,
            message,
            kind,
        };
        (Err(error), effects)
    }

    /// Accepts parked sends, oldest first, while the bound mailbox has room.
    fn promote_waiters(&mut self, binding: Binding, effects: &mut MailboxEffects<M>)
        requires
            old(self).waiters.wf(),
            old(self)@.accepted + old(self)@.promotable(binding.kind) <= u64::MAX,
            old(effects)@.displaced.len() == 0,
            binding.kind is Latest ==> old(self)@.queue.len() == 0,
        ensures
            final(self).waiters.wf(),
            final(self)@ == old(self)@.promoted(
                binding,
                old(self)@.promotable(binding.kind),
            ),
            final(effects)@ == (EffectsModel {
                displaced: old(self)@.displaced_by_promotion(
                    binding.kind,
                    old(self)@.promotable(binding.kind),
                ),
                wakers: old(effects)@.wakers + old(self)@.promotion_wakes(
                    old(self)@.promotable(binding.kind),
                ),
                ..old(effects)@
            }),
    {
        let ghost start = self@;
        let ghost limit = start.promotable(binding.kind);
        let ghost mut count: nat = 0;
        proof {
            lemma_promoting_none(start, binding);
        }
        loop
            invariant
                self.waiters.wf(),
                start == old(self)@,
                limit == start.promotable(binding.kind),
                count <= limit,
                all_waiting(start.waiters),
                start.accepted + limit <= u64::MAX,
                self@ == start.promoted(binding, count),
                effects@.displaced == start.displaced_by_promotion(binding.kind, count),
                effects@.wakers == old(effects)@.wakers + start.promotion_wakes(count),
                effects@.pulse == old(effects)@.pulse,
                effects@.isolate_displaced == old(effects)@.isolate_displaced,
            ensures
                count == limit,
            decreases limit - count,
        {
            if let ResolvedMailbox::Queue(capacity) = binding.kind {
                if self.queue.len() >= capacity.get() {
                    assert(self@.queue.len() == start.queue.len() + count);
                    break;
                }
            }
            let popped = self.waiters.pop_front();
            let (id, mut operation) = match popped {
                Some(row) => row,
                None => {
                    break;
                },
            };
            assert((id, operation) == start.waiters[count as int]);
            assert(operation.is_waiting());
            let ghost row = (id, operation);
            operation.observe(binding.incarnation);
            if let Some(message) = operation.accept(binding.incarnation, &mut effects.wakers) {
                self.push_accepted(binding.kind, message, effects);
            }
            self.settled.push(id, operation);
            proof {
                lemma_promoting_one(start, binding, count);
                assert(row.1.observed(binding.incarnation).wakes() == row.1.wakes());
                assert(self@.waiters =~= start.promoted(binding, (count + 1) as nat).waiters);
                assert(self@.settled =~= start.promoted(binding, (count + 1) as nat).settled);
                assert(self@.queue =~= start.promoted(binding, (count + 1) as nat).queue);
                assert(self@ =~= start.promoted(binding, (count + 1) as nat));
                count = (count + 1) as nat;
            }
        }
    }
}

impl<M> MailboxCell<M> {
    /// Dequeues the next message this receive mode may observe.
    fn take_next(&mut self, kind: ResolvedMailbox, mode: ReceiveMode) -> (taken: Option<Envelope<M>>)
        ensures
            final(self).waiters == old(self).waiters,
            match old(self)@.next_unread(kind) {
                Some(envelope) if mode.admits(envelope.accepted_sequence) => taken == Some(envelope)
                    && final(self)@ == old(self)@.without_next(kind),
                _ => taken is None && final(self)@ == old(self)@,
            },
    {
        match kind {
            ResolvedMailbox::Queue(_) => {
                if self.queue.len() == 0 {
                    return None;
                }
                if !mode.accepts(self.queue[0].accepted_sequence) {
                    return None;
                }
                let taken = self.queue.pop_front();
                proof {
                    assert(self.queue@ =~= old(self).queue@.skip(1));
                }
                taken
            },
            ResolvedMailbox::Latest => {
                let admitted = match &self.latest {
                    Some(envelope) => mode.accepts(envelope.accepted_sequence),
                    None => false,
                };
                if admitted {
                    self.latest.take()
                } else {
                    None
                }
            },
        }
    }

    /// Receives for `incarnation`: only the bound incarnation reads, a frozen
    /// mailbox is only drained, and a live one admits the parked sends it then
    /// has room for.
    pub fn receive(&mut self, incarnation: Incarnation, mode: ReceiveMode) -> (outcome: (
        Option<M>,
        MailboxEffects<M>,
    ))
        requires
            old(self)@.wf(),
            old(self)@.accepted < u64::MAX,
        ensures
            final(self)@ == old(self)@.after_receive(incarnation, mode),
            final(self)@.wf(),
            outcome.0 == match old(self)@.received(incarnation, mode) {
                Some(envelope) => Some(envelope.message),
                None => None,
            },
            outcome.1@ == old(self)@.receive_effects(incarnation, mode),
    {
        let mut effects = MailboxEffects::new();
        let (binding, live) = match self.phase {
            Phase::Bound(binding) => if binding.incarnation == incarnation {
                (binding, true)
            } else {
                return (None, effects);
            },
            Phase::Frozen(binding) => if matches!(mode, ReceiveMode::Drain)
                && binding.incarnation == incarnation {
                (binding, false)
            } else {
                return (None, effects);
            },
            Phase::Unbound => {
                return (None, effects);
            },
            Phase::Terminal(_) => {
                return (None, effects);
            },
        };
        match self.take_next(binding.kind, mode) {
            Some(envelope) => {
                proof {
                    lemma_without_next_consistent(old(self)@, binding);
                }
                if live {
                    proof {
                        lemma_promotion_wf(self@, binding);
                    }
                    self.promote_waiters(binding, &mut effects);
                }
                (Some(envelope.message), effects)
            },
            None => (None, effects),
        }
    }

    /// The owning actor's id.
    pub fn actor_id(&self) -> (id: ChildId)
        ensures
            id@ == self@.actor,
    {
        self.actor_id.clone()
    }

    /// The incarnation a sender would observe now.
    pub fn current_observation(&self) -> (incarnation: Option<Incarnation>)
        ensures
            incarnation == self@.phase.observed(),
    {
        self.phase.observation()
    }

    /// The newest position in the acceptance order.
    pub fn accepted_sequence(&self) -> (sequence: AcceptedSequence)
        ensures
            sequence.0 == self@.accepted,
    {
        AcceptedSequence(self.accepted.load())
    }

    /// Whether every counter can take one more step, and a binding could accept
    /// every parked send.
    pub fn has_numbers_left(&self) -> (left: bool)
        ensures
            left == {
                &&& self@.accepted < u64::MAX
                &&& self@.last_id < u64::MAX
                &&& self@.permit < u64::MAX
                &&& self@.accepted + self@.waiters.len() <= u64::MAX
            },
    {
        let parked: u64 = self.waiters.len() as u64;
        self.accepted.load() < u64::MAX && self.waiters.last() < u64::MAX && self.permit < u64::MAX
            && parked <= u64::MAX - self.accepted.load()
    }
}

/// The right to bind a mailbox once, after it was configured or closed.
#[derive(Debug)]
pub struct MailboxBindToken {
    serial: u64,
    permit: u64,
}

impl MailboxBindToken {
    /// The mailbox and permit the token was issued for.
    pub closed spec fn view(&self) -> (u64, u64) {
        (self.serial, self.permit)
    }
}

/// An incarnation's unread messages, and the right to bind its successor.
#[derive(Debug)]
pub struct MailboxClose<M> {
    /// The right to bind the next incarnation.
    pub token: MailboxBindToken,
    /// What the closed incarnation left unread.
    pub payload: MailboxPayload<M>,
}

/// Why a mailbox cannot be bound.
#[derive(Clone, Copy, Debug, PartialEq, Eq, Structural)]
pub enum BindRefusal {
    /// The mailbox must be configured before its first bind.
    NotConfigured,
    /// The prior incarnation must be closed before rebinding.
    StillBound,
    /// The token is foreign or was already consumed.
    StaleToken,
}

impl BindRefusal {
    /// The diagnostic for a caller that binds all the same.
    pub fn message(self) -> (text: &'static str)
        ensures
            text@ == match self {
                BindRefusal::NotConfigured => "mailbox must be configured before its first bind"@,
                BindRefusal::StillBound =>
                    "mailbox must close the prior incarnation before rebinding"@,
                BindRefusal::StaleToken => "mailbox bind token is foreign or was already consumed"@,
            },
    {
        match self {
            BindRefusal::NotConfigured => "mailbox must be configured before its first bind",
            BindRefusal::StillBound => "mailbox must close the prior incarnation before rebinding",
            BindRefusal::StaleToken => "mailbox bind token is foreign or was already consumed",
        }
    }
}

impl<M> MailboxModel<M> {
    /// Whether `token` may claim the current permit.
    pub open spec fn claimable(self, token: MailboxBindToken) -> bool {
        token@ == (self.serial, self.permit) && !self.permit_claimed
    }

    /// Why a live mailbox refuses to bind with `token`, if it does.
    pub open spec fn bind_refusal(self, token: MailboxBindToken) -> Option<BindRefusal> {
        if self.kind is None {
            Some(BindRefusal::NotConfigured)
        } else if self.phase !is Unbound {
            Some(BindRefusal::StillBound)
        } else if !self.claimable(token) {
            Some(BindRefusal::StaleToken)
        } else {
            None
        }
    }
}

impl<M> MailboxCell<M> {
    /// Settles the mailbox kind, or reports the different kind it already has.
    pub fn configure_kind(&mut self, kind: ResolvedMailbox) -> (mismatch: Option<ResolvedMailbox>)
        requires
            old(self)@.wf(),
        ensures
            final(self)@.wf(),
            mismatch == match old(self)@.kind {
                Some(existing) => if existing == kind {
                    None
                } else {
                    Some(existing)
                },
                None => None,
            },
            final(self)@ == match old(self)@.kind {
                Some(_) => old(self)@,
                None => MailboxModel { kind: Some(kind), ..old(self)@ },
            },
    {
        match self.kind {
            Some(existing) => if existing == kind {
                None
            } else {
                Some(existing)
            },
            None => {
                self.kind = Some(kind);
                None
            },
        }
    }

    /// Settles the mailbox kind and issues a bind token. A kind once settled
    /// does not change.
    pub fn configure(&mut self, kind: ResolvedMailbox) -> (token: MailboxBindToken)
        requires
            old(self)@.wf(),
            old(self)@.kind is None || old(self)@.kind == Some(kind),
        ensures
            final(self)@.wf(),
            final(self)@ == (MailboxModel { kind: Some(kind), ..old(self)@ }),
            token@ == (old(self)@.serial, old(self)@.permit),
    {
        let _ = self.configure_kind(kind);
        MailboxBindToken { serial: self.serial, permit: self.permit }
    }

    /// Why binding with `token` is refused; a terminated mailbox refuses
    /// nothing, since binding it does nothing.
    pub fn bind_verdict(&self, token: &MailboxBindToken) -> (refusal: Option<BindRefusal>)
        ensures
            self@.phase is Terminal ==> refusal is None,
            !(self@.phase is Terminal) ==> refusal == self@.bind_refusal(*token),
    {
        match self.phase {
            Phase::Terminal(_) => None,
            Phase::Unbound => {
                if self.kind.is_none() {
                    Some(BindRefusal::NotConfigured)
                } else if token.serial != self.serial || token.permit != self.permit
                    || self.permit_claimed {
                    Some(BindRefusal::StaleToken)
                } else {
                    None
                }
            },
            Phase::Bound(_) => {
                if self.kind.is_none() {
                    Some(BindRefusal::NotConfigured)
                } else {
                    Some(BindRefusal::StillBound)
                }
            },
            Phase::Frozen(_) => {
                if self.kind.is_none() {
                    Some(BindRefusal::NotConfigured)
                } else {
                    Some(BindRefusal::StillBound)
                }
            },
        }
    }

    /// Binds `incarnation`, consuming the token. Every parked send observes
    /// it, and as many as there is room for are accepted, oldest first.
    pub fn bind(&mut self, token: MailboxBindToken, incarnation: Incarnation) -> (effects:
        MailboxEffects<M>)
        requires
            old(self)@.wf(),
            old(self)@.phase is Terminal || old(self)@.bind_refusal(token) is None,
            old(self)@.accepted + old(self)@.waiters.len() <= u64::MAX,
        ensures
            final(self)@.wf(),
            old(self)@.phase is Terminal ==> final(self)@ == old(self)@ && effects@ == no_effects::<
                M,
            >(),
            !(old(self)@.phase is Terminal) ==> {
                let binding = Binding { incarnation, kind: old(self)@.kind->Some_0 };
                &&& final(self)@ == old(self)@.bound(binding)
                &&& effects@ == old(self)@.bind_effects(binding)
            },
    {
        let mut effects = MailboxEffects::new();
        if let Phase::Terminal(_) = self.phase {
            return effects;
        }
        let kind = match self.kind {
            Some(kind) => kind,
            None => {
                return effects;
            },
        };
        let binding = Binding { incarnation, kind };
        self.permit_claimed = true;
        self.phase = Phase::Bound(binding);
        self.last_bound = Some(incarnation);
        self.waiters.observe_all(incarnation);
        proof {
            lemma_binding_consistent(old(self)@, binding);
            assert(self@ =~= old(self)@.binding_observed(binding));
            lemma_promotion_wf(self@, binding);
        }
        self.promote_waiters(binding, &mut effects);
        effects.pulse();
        effects.isolate_displaced();
        effects
    }

    /// Stops acceptance for `incarnation`; what it accepted can still be
    /// drained.
    pub fn freeze(&mut self, incarnation: Incarnation) -> (effects: MailboxEffects<M>)
        requires
            old(self)@.wf(),
        ensures
            final(self)@.wf(),
            final(self)@ == old(self)@.frozen(incarnation),
            effects@ == (EffectsModel::<M> {
                pulse: old(self)@.frozen(incarnation) != old(self)@,
                ..no_effects()
            }),
    {
        let mut effects = MailboxEffects::new();
        if let Phase::Bound(binding) = self.phase {
            if binding.incarnation == incarnation {
                self.phase = Phase::Frozen(binding);
                effects.pulse();
                assert(self@.phase != old(self)@.phase);
            }
        }
        effects
    }

    /// Detaches the unread messages.
    fn take_payload(&mut self) -> (payload: MailboxPayload<M>)
        ensures
            payload.queue@ == old(self)@.queue,
            payload.latest == old(self)@.latest,
            final(self).waiters == old(self).waiters,
            final(self)@ == (MailboxModel { queue: seq![], latest: None, ..old(self)@ }),
    {
        let mut queue: VecDeque<Envelope<M>> = VecDeque::new();
        core::mem::swap(&mut self.queue, &mut queue);
        MailboxPayload { queue, latest: self.latest.take() }
    }

    /// Closes `incarnation`, if it is the observed one. Its unread messages
    /// leave with the result; parked sends wait for the next incarnation.
    pub fn close(&mut self, incarnation: Incarnation) -> (outcome: (
        Option<MailboxClose<M>>,
        MailboxEffects<M>,
    ))
        requires
            old(self)@.wf(),
            old(self)@.permit < u64::MAX,
        ensures
            final(self)@.wf(),
            outcome.0 is Some <==> old(self)@.phase.observed() == Some(incarnation),
            outcome.0 is None ==> final(self)@ == old(self)@ && outcome.1@ == no_effects::<M>(),
            outcome.0 matches Some(closed) ==> {
                &&& final(self)@ == old(self)@.closed()
                &&& final(self)@.claimable(closed.token)
                &&& closed.payload.queue@ == old(self)@.queue
                &&& closed.payload.latest == old(self)@.latest
                &&& outcome.1@ == (EffectsModel::<M> { pulse: true, ..no_effects() })
            },
    {
        let mut effects = MailboxEffects::new();
        let observed = match self.phase.observation() {
            Some(observed) => observed == incarnation,
            None => false,
        };
        if !observed {
            return (None, effects);
        }
        self.phase = Phase::Unbound;
        self.permit = self.permit + 1;
        self.permit_claimed = false;
        let token = MailboxBindToken { serial: self.serial, permit: self.permit };
        let payload = self.take_payload();
        effects.pulse();
        (Some(MailboxClose { token, payload }), effects)
    }
}

/// A terminated mailbox's unread messages, until its teardown finishes.
#[derive(Debug)]
pub struct MailboxTeardown<M> {
    /// Whether watchers are still to be told of the change.
    pub changed: bool,
    /// The unread messages, until they are handed out.
    pub payload: Option<MailboxPayload<M>>,
    /// Whether the detached sends are still to be discharged.
    pub termination: bool,
}

/// What a finished teardown leaves to do.
#[derive(Debug)]
pub enum TeardownEnd<M, P> {
    /// The unread messages go back to the caller.
    Payload(MailboxPayload<M>),
    /// The unread messages go to the disposal lane and the panic resumes.
    Resume {
        /// The panic to resume.
        panic: P,
        /// What goes to the disposal lane.
        disposed: MailboxPayload<M>,
    },
}

impl<M> MailboxTeardown<M> {
    /// Performs what the teardown still owes the mailbox, each part once: tell
    /// watchers, then discharge every detached send.
    pub fn finish_framework(&mut self, cell: &mut MailboxCell<M>) -> (effects: MailboxEffects<M>)
        requires
            old(cell)@.wf(),
            old(cell)@.phase is Terminal,
        ensures
            final(cell)@.wf(),
            final(self).payload == old(self).payload,
            !final(self).changed,
            !final(self).termination,
            final(cell)@ == if old(self).termination {
                old(cell)@.discharged()
            } else {
                old(cell)@
            },
            effects@ == (EffectsModel::<M> {
                pulse: old(self).changed,
                wakers: if old(self).termination {
                    wakes_of(old(cell)@.detached)
                } else {
                    seq![]
                },
                ..no_effects()
            }),
    {
        let mut effects = MailboxEffects::new();
        if self.changed {
            self.changed = false;
            effects.pulse();
        }
        if self.termination {
            self.termination = false;
            cell.discharge(&mut effects.wakers);
        }
        effects
    }

    /// Ends a teardown whose framework work is done. `panic` is what that work
    /// raised, if anything.
    pub fn finish<P>(self, panic: Option<P>) -> (end: TeardownEnd<M, P>)
        requires
            self.payload is Some,
        ensures
            end == match panic {
                None => TeardownEnd::<M, P>::Payload(self.payload->Some_0),
                Some(raised) => TeardownEnd::<M, P>::Resume {
                    panic: raised,
                    disposed: self.payload->Some_0,
                },
            },
    {
        let payload = self.payload.unwrap();
        match panic {
            None => TeardownEnd::Payload(payload),
            Some(raised) => TeardownEnd::Resume { panic: raised, disposed: payload },
        }
    }
}

impl<M> MailboxCell<M> {
    /// Decides termination: nothing is accepted or parked any more, and every
    /// parked send is detached for the teardown to discharge. `None` for a
    /// mailbox that had terminated before.
    pub fn prepare_termination(&mut self) -> (teardown: Option<MailboxTeardown<M>>)
        requires
            old(self)@.wf(),
        ensures
            final(self)@.wf(),
            teardown is None <==> old(self)@.phase is Terminal,
            teardown is None ==> final(self)@ == old(self)@,
            teardown matches Some(started) ==> {
                &&& final(self)@ == old(self)@.terminal()
                &&& started.changed
                &&& started.termination
                &&& started.payload matches Some(payload)
                &&& payload.queue@ == old(self)@.queue
                &&& payload.latest == old(self)@.latest
            },
    {
        if let Phase::Terminal(_) = self.phase {
            return None;
        }
        self.phase = Phase::Terminal(self.last_bound);
        self.detached = self.waiters.detach();
        let payload = self.take_payload();
        Some(MailboxTeardown { changed: true, payload: Some(payload), termination: true })
    }

    /// Decides every detached send by termination, oldest first.
    fn discharge(&mut self, wakers: &mut Vec<WakerEffect>)
        requires
            old(self)@.wf(),
            old(self)@.phase is Terminal,
        ensures
            final(self)@.wf(),
            final(self)@ == old(self)@.discharged(),
            final(wakers)@ == old(wakers)@ + wakes_of(old(self)@.detached),
    {
        let ghost start = self@;
        let ghost mut count: nat = 0;
        let final_incarnation = self.last_bound;
        proof {
            assert(start.settled + start.terminated_rows().take(0) =~= start.settled);
            assert(start.detached.skip(0) =~= start.detached);
            assert(start.detached.take(0) =~= seq![]);
        }
        loop
            invariant
                start == old(self)@,
                start.wf(),
                count <= start.detached.len(),
                final_incarnation == start.last_bound,
                self@ == (MailboxModel {
                    detached: start.detached.skip(count as int),
                    settled: start.settled + start.terminated_rows().take(count as int),
                    ..start
                }),
                wakers@ == old(wakers)@ + wakes_of(start.detached.take(count as int)),
            ensures
                count == start.detached.len(),
            decreases start.detached.len() - count,
        {
            let popped = self.detached.pop_first();
            let (id, mut operation) = match popped {
                Some(row) => row,
                None => {
                    break;
                },
            };
            assert((id, operation) == start.detached[count as int]);
            operation.terminate(final_incarnation, wakers);
            self.settled.push(id, operation);
            proof {
                let next = (count + 1) as int;
                assert((id, operation) == start.terminated_rows()[count as int]);
                assert(start.terminated_rows().take(next) =~= start.terminated_rows().take(
                    count as int,
                ).push((id, operation)));
                assert(start.settled + start.terminated_rows().take(next) =~= (start.settled
                    + start.terminated_rows().take(count as int)).push((id, operation)));
                assert(start.detached.skip(count as int).skip(1) =~= start.detached.skip(next));
                assert(start.detached.take(next).drop_last() =~= start.detached.take(
                    count as int,
                ));
                count = (count + 1) as nat;
            }
        }
        proof {
            assert(start.terminated_rows().take(count as int) =~= start.terminated_rows());
            assert(start.detached.take(count as int) =~= start.detached);
            assert(start.detached.skip(count as int) =~= seq![]);
            lemma_discharge_wf(start);
        }
    }

    /// Withdraws the send `id` names, wherever it stands. `None` for a send
    /// that was withdrawn or observed before.
    pub fn withdraw(&mut self, id: WaiterId, disposition: WithdrawalDisposition) -> (outcome: (
        Option<WithdrawalOutcome<M>>,
        Vec<WakerEffect>,
    ))
        requires
            old(self)@.wf(),
        ensures
            final(self)@.wf(),
            final(self)@ == old(self)@.without(id.0),
            outcome.0 == old(self)@.withdrawal(id.0),
            outcome.0 is Some <==> old(self)@.live(id.0),
            outcome.1@ == old(self)@.withdrawal_wakers(id.0, disposition),
    {
        let phase = self.phase;
        let mut wakers: Vec<WakerEffect> = Vec::new();
        let found = match self.waiters.remove(id) {
            Some(operation) => Some(operation),
            None => match self.detached.position(id.0) {
                Some(index) => Some(self.detached.remove_at(index).1),
                None => match self.settled.position(id.0) {
                    Some(index) => Some(self.settled.remove_at(index).1),
                    None => None,
                },
            },
        };
        proof {
            lemma_without_wf(old(self)@, id.0);
        }
        match found {
            None => (None, wakers),
            Some(operation) => {
                if let Some(waker) = operation.waker {
                    wakers.push(disposition.action(waker));
                }
                let outcome = match operation.outcome {
                    OperationOutcome::Waiting { message, newest_observed } => Some(
                        WithdrawalOutcome::Withdrawn {
                            message,
                            observed: if newest_observed.is_some() {
                                newest_observed
                            } else {
                                phase.observation()
                            },
                        },
                    ),
                    OperationOutcome::Accepted(incarnation) => Some(
                        WithdrawalOutcome::Accepted(incarnation),
                    ),
                    OperationOutcome::Terminated { message, final_incarnation } => Some(
                        WithdrawalOutcome::Terminated { message, observed: final_incarnation },
                    ),
                    OperationOutcome::Retired => None,
                };
                (outcome, wakers)
            },
        }
    }

    /// Polls the send `id` names. One that still waits registers
    /// `replacement`; a decided one is handed out and released.
    pub fn poll_operation(
        &mut self,
        id: WaiterId,
        replacement: Option<WakerId>,
        current: WakerId,
    ) -> (outcome: (OperationPoll<M>, Vec<WakerEffect>))
        requires
            old(self)@.wf(),
            old(self)@.live(id.0),
        ensures
            final(self)@.wf(),
            final(self)@ == old(self)@.polled(id.0, replacement),
            outcome.0 == old(self)@.operation(id.0)->Some_0.poll_result(replacement, current),
            outcome.1@ == old(self)@.operation(id.0)->Some_0.poll_drops(replacement),
    {
        let mut wakers: Vec<WakerEffect> = Vec::new();
        proof {
            lemma_without_wf(self@, id.0);
        }
        match self.waiters.poll(id, replacement, current, &mut wakers) {
            Some(polled) => (polled, wakers),
            None => match self.detached.position(id.0) {
                Some(index) => {
                    assert(self@.detached[index as int].1.is_waiting());
                    let operation = self.detached.value_mut(index);
                    let polled = operation.poll(replacement, current, &mut wakers);
                    (polled, wakers)
                },
                None => match self.settled.position(id.0) {
                    Some(index) => {
                        assert(self@.settled[index as int].1.outcome is Accepted
                            || self@.settled[index as int].1.outcome is Terminated);
                        let mut operation = self.settled.remove_at(index).1;
                        let polled = operation.poll(replacement, current, &mut wakers);
                        (polled, wakers)
                    },
                    None => {
                        assert(false);
                        (OperationPoll::Pending, wakers)
                    },
                },
            },
        }
    }
}

/// Discharging every detached send keeps a terminal mailbox well formed.
proof fn lemma_discharge_wf<M>(model: MailboxModel<M>)
    requires
        model.wf(),
        model.phase is Terminal,
    ensures
        model.discharged().wf(),
{
    let after = model.discharged();
    let rows = model.terminated_rows();
    assert forall|i: int, j: int| 0 <= i < j < after.settled.len() implies after.settled[i].0
        < after.settled[j].0 by {
        if j >= model.settled.len() {
            let b = j - model.settled.len();
            assert(after.settled[j] == rows[b]);
            if i >= model.settled.len() {
                let a = i - model.settled.len();
                assert(after.settled[i] == rows[a]);
                assert(model.detached[a].0 < model.detached[b].0);
            } else {
                assert(model.settled[i].0 < model.detached[b].0);
            }
        }
    }
    assert forall|i: int| 0 <= i < after.settled.len() implies (
    #[trigger] after.settled[i]).1.outcome is Accepted || after.settled[i].1.outcome is Terminated by {
        if i >= model.settled.len() {
            assert(after.settled[i] == rows[i - model.settled.len()]);
            assert(model.detached[i - model.settled.len()].1.is_waiting());
        }
    }
    assert forall|i: int| 0 <= i < after.settled.len() implies (#[trigger] after.settled[i]).0
        <= after.last_id by {
        if i >= model.settled.len() {
            assert(after.settled[i] == rows[i - model.settled.len()]);
            assert(model.detached[i - model.settled.len()].0 <= model.last_id);
        }
    }
}

/// Taking one send out keeps the mailbox well formed.
proof fn lemma_without_wf<M>(model: MailboxModel<M>, id: u64)
    requires
        model.wf(),
    ensures
        model.without(id).wf(),
{
}

/// Binding keeps an unbound, configured mailbox consistent.
proof fn lemma_binding_consistent<M>(model: MailboxModel<M>, binding: Binding)
    requires
        model.wf(),
        model.phase is Unbound,
        model.kind == Some(binding.kind),
    ensures
        model.binding_observed(binding).consistent(),
{
    let after = model.binding_observed(binding);
    assert forall|i: int| 0 <= i < after.waiters.len() implies (
    #[trigger] after.waiters[i]).1.is_waiting() by {
        assert(model.waiters[i].1.is_waiting());
    }
}

/// Taking the oldest unread message keeps a bound mailbox consistent, and
/// leaves room for at most one parked send.
proof fn lemma_without_next_consistent<M>(model: MailboxModel<M>, binding: Binding)
    requires
        model.wf(),
        model.phase == Phase::Bound(binding) || model.phase == Phase::Frozen(binding),
        model.next_unread(binding.kind) is Some,
    ensures
        model.without_next(binding.kind).consistent(),
        model.phase is Bound ==> model.without_next(binding.kind).promotable(binding.kind) <= 1,
{
    let freed = model.without_next(binding.kind);
    assert forall|i: int, j: int| 0 <= i < j < freed.queue.len() implies
        freed.queue[i].accepted_sequence.0 < freed.queue[j].accepted_sequence.0 by {
        if binding.kind is Queue {
            assert(freed.queue[i] == model.queue[i + 1]);
            assert(freed.queue[j] == model.queue[j + 1]);
        }
    }
    assert forall|i: int| 0 <= i < freed.queue.len() implies (
    #[trigger] freed.queue[i]).accepted_sequence.0 <= model.accepted by {
        if binding.kind is Queue {
            assert(freed.queue[i] == model.queue[i + 1]);
        }
    }
}

/// Promoting as many sends as there is room for makes a consistent bound
/// mailbox well formed.
proof fn lemma_promotion_wf<M>(model: MailboxModel<M>, binding: Binding)
    requires
        model.consistent(),
        model.phase == Phase::Bound(binding),
        model.accepted + model.promotable(binding.kind) <= u64::MAX,
    ensures
        model.promoted(binding, model.promotable(binding.kind)).wf(),
{
    let count = model.promotable(binding.kind);
    let after = model.promoted(binding, count);
    let rows = model.promoted_rows(binding.incarnation, count);
    assert forall|i: int, j: int| 0 <= i < j < after.settled.len() implies after.settled[i].0
        < after.settled[j].0 by {
        if j < model.settled.len() {
        } else if i < model.settled.len() {
            assert(after.settled[j] == rows[j - model.settled.len()]);
            assert(model.settled[i].0 < model.waiters[j - model.settled.len()].0);
        } else {
            assert(after.settled[i] == rows[i - model.settled.len()]);
            assert(after.settled[j] == rows[j - model.settled.len()]);
            assert(model.waiters[i - model.settled.len()].0 < model.waiters[j
                - model.settled.len()].0);
        }
    }
    assert forall|i: int, j: int|
        #![trigger after.settled[i], after.waiters[j]]
        0 <= i < after.settled.len() && 0 <= j < after.waiters.len() implies after.settled[i].0
        < after.waiters[j].0 by {
        assert(after.waiters[j] == model.waiters[j + count]);
        if i < model.settled.len() {
        } else {
            assert(after.settled[i] == rows[i - model.settled.len()]);
            assert(model.waiters[i - model.settled.len()].0 < model.waiters[j + count].0);
        }
    }
    assert forall|i: int| 0 <= i < after.settled.len() implies (#[trigger] after.settled[i]).0
        <= after.last_id by {
        if i >= model.settled.len() {
            assert(after.settled[i] == rows[i - model.settled.len()]);
            assert(model.waiters[i - model.settled.len()].0 <= model.last_id);
        }
    }
    if binding.kind is Queue {
        assert forall|i: int, j: int| 0 <= i < j < after.queue.len() implies
            after.queue[i].accepted_sequence.0 < after.queue[j].accepted_sequence.0 by {
            if j >= model.queue.len() {
                assert(after.queue[j] == model.promoted_envelope(j - model.queue.len()));
                if i >= model.queue.len() {
                    assert(after.queue[i] == model.promoted_envelope(i - model.queue.len()));
                } else {
                    assert(model.queue[i].accepted_sequence.0 <= model.accepted);
                }
            }
        }
        assert forall|i: int| 0 <= i < after.queue.len() implies (
        #[trigger] after.queue[i]).accepted_sequence.0 <= after.accepted by {
            if i >= model.queue.len() {
                assert(after.queue[i] == model.promoted_envelope(i - model.queue.len()));
            }
        }
    } else {
        let history = model.slot_history(count);
        if history.len() > 0 {
            if count > 0 {
                assert(history.last() == model.promoted_envelope(count - 1));
            } else {
                assert(history =~= optional(model.latest));
            }
        }
    }
}

/// Promoting nothing changes nothing.
proof fn lemma_promoting_none<M>(model: MailboxModel<M>, binding: Binding)
    requires
        binding.kind is Latest ==> model.queue.len() == 0,
    ensures
        model.promoted(binding, 0) == model,
        model.displaced_by_promotion(binding.kind, 0) == Seq::<Envelope<M>>::empty(),
        model.promotion_wakes(0) == Seq::<WakerEffect>::empty(),
{
    assert(model.promoted_envelopes(0) =~= seq![]);
    assert(model.promoted_rows(binding.incarnation, 0) =~= seq![]);
    assert(model.slot_history(0) =~= optional(model.latest));
    assert(model.waiters.skip(0) =~= model.waiters);
    assert(model.waiters.take(0) =~= seq![]);
    assert(all_but_last(optional(model.latest)) =~= seq![]);
    assert(model.promoted(binding, 0) =~= model);
}

/// Promoting one more send extends every part of the promotion by one.
proof fn lemma_promoting_one<M>(model: MailboxModel<M>, binding: Binding, count: nat)
    requires
        count < model.waiters.len(),
        model.accepted + count < u64::MAX,
    ensures
        model.promoted_envelopes(count + 1) == model.promoted_envelopes(count).push(
            model.promoted_envelope(count as int),
        ),
        last_of(model.slot_history(count + 1)) == Some(model.promoted_envelope(count as int)),
        all_but_last(model.slot_history(count + 1)) == all_but_last(model.slot_history(count))
            + optional(last_of(model.slot_history(count))),
        model.promotion_wakes(count + 1) == model.promotion_wakes(count)
            + model.waiters[count as int].1.wakes(),
        model.promoted(binding, count).next_envelope(waiting_message(model.waiters[count as int]))
            == model.promoted_envelope(count as int),
{
    assert(model.promoted_envelopes(count + 1) =~= model.promoted_envelopes(count).push(
        model.promoted_envelope(count as int),
    ));
    assert(model.slot_history(count + 1) =~= model.slot_history(count).push(
        model.promoted_envelope(count as int),
    ));
    assert(all_but_last(model.slot_history(count + 1)) =~= model.slot_history(count));
    assert(all_but_last(model.slot_history(count)) + optional(last_of(model.slot_history(count)))
        =~= model.slot_history(count));
    assert(model.waiters.take((count + 1) as int).drop_last() =~= model.waiters.take(count as int));
}

} // verus!
