//! Ready selection: one bounded turn through continuations, mailbox, offload
//! completions and timers.

use crate::identity::Incarnation;
use crate::mailbox::cell::MailboxCell;
use crate::mailbox::effects::MailboxEffects;
use crate::mailbox::handle::MailboxReceiver;
use crate::mailbox::model::{no_effects, EffectsModel, MailboxModel};
use crate::mailbox::state::{AcceptedSequence, Envelope, ReceiveMode};
use crate::raw::disposal::PanicPayload;
use crate::raw::latch::{is_set, LatchTable};
use crate::raw::resources::{
    armings_fit, discard_timers, discarded_events, discarded_timers, Cleanup, QueuedEvent,
    RawModel, RawResources,
};
use crate::raw::timers::{
    law_a_fire_takes_each_due_timer_once, lemma_store_is_listed, Armed, ArmingOrder, Garbage,
    IntervalRearm, TimerEntry, TimerModel,
};
use crate::time::Instant;
use std::collections::VecDeque;
use vstd::prelude::*;

verus! {

/// How far a selection has come.
#[verifier::ext_equal]
pub enum BatchPhaseModel {
    /// No timer has fired.
    Steady {
        /// Whether the one mailbox delivery was made.
        mailbox_delivered: bool,
    },
    /// Timers have fired.
    Fired {
        /// The armings still to deliver.
        armings: Seq<ArmingOrder>,
        /// The continuations still to deliver before them.
        continuations_remaining: nat,
    },
}

/// A bounded selection: cuts through every source of work.
#[verifier::ext_equal]
pub struct BatchModel {
    /// How far the selection has come.
    pub phase: BatchPhaseModel,
    /// The newest mailbox message in it.
    pub mailbox_through: AcceptedSequence,
    /// How many queued completions are in it.
    pub offloads_remaining: nat,
}

/// How far a selection has come.
#[derive(Debug)]
pub enum ReadyBatchPhase {
    /// No timer has fired: one mailbox delivery goes before the captured
    /// completions, and continuations stay live.
    Steady {
        /// Whether the one mailbox delivery was made.
        mailbox_delivered: bool,
    },
    /// Timers have fired: the whole mailbox prefix and the captured
    /// continuations go before the armings.
    Fired {
        /// The armings still to deliver.
        armings: VecDeque<ArmingOrder>,
        /// The continuations still to deliver before them.
        continuations_remaining: usize,
    },
}

/// A bounded selection: cuts through every source of work.
#[derive(Debug)]
pub struct ReadyBatch {
    /// How far the selection has come.
    pub phase: ReadyBatchPhase,
    /// The newest mailbox message in it.
    pub mailbox_through: AcceptedSequence,
    /// How many queued completions are in it.
    pub offloads_remaining: usize,
}

impl BatchModel {
    /// A selection in which no timer has fired.
    pub open spec fn steady(mailbox_through: AcceptedSequence, offloads_remaining: nat) -> BatchModel {
        BatchModel {
            phase: BatchPhaseModel::Steady { mailbox_delivered: false },
            mailbox_through,
            offloads_remaining,
        }
    }

    /// Whether the one mailbox delivery of a steady selection was made.
    pub open spec fn budget_exhausted(self) -> bool {
        self.phase matches BatchPhaseModel::Steady { mailbox_delivered } && mailbox_delivered
    }

    /// Whether the mailbox may be read.
    pub open spec fn reads_mailbox(self) -> bool {
        !self.budget_exhausted()
    }

    /// Whether timers have fired.
    pub open spec fn fired(self) -> bool {
        self.phase is Fired
    }

    /// Whether a continuation may be delivered.
    pub open spec fn admits_continuation(self) -> bool {
        self.phase matches BatchPhaseModel::Fired { continuations_remaining, .. }
            ==> continuations_remaining > 0
    }

    /// The selection once a continuation was delivered.
    pub open spec fn continued(self) -> BatchModel {
        match self.phase {
            BatchPhaseModel::Fired { armings, continuations_remaining } => BatchModel {
                phase: BatchPhaseModel::Fired {
                    armings,
                    continuations_remaining: (continuations_remaining - 1) as nat,
                },
                ..self
            },
            BatchPhaseModel::Steady { .. } => self,
        }
    }

    /// The selection once a mailbox message was delivered.
    pub open spec fn mailed(self) -> BatchModel {
        match self.phase {
            BatchPhaseModel::Steady { .. } => BatchModel {
                phase: BatchPhaseModel::Steady { mailbox_delivered: true },
                ..self
            },
            BatchPhaseModel::Fired { .. } => self,
        }
    }

    /// The armings still to deliver.
    pub open spec fn armings(self) -> Seq<ArmingOrder> {
        match self.phase {
            BatchPhaseModel::Fired { armings, .. } => armings,
            BatchPhaseModel::Steady { .. } => seq![],
        }
    }

    /// The selection once its first `count` armings were delivered or found
    /// retracted.
    pub open spec fn past_armings(self, count: int) -> BatchModel {
        match self.phase {
            BatchPhaseModel::Fired { armings, continuations_remaining } => BatchModel {
                phase: BatchPhaseModel::Fired {
                    armings: armings.skip(count),
                    continuations_remaining,
                },
                ..self
            },
            BatchPhaseModel::Steady { .. } => self,
        }
    }
}

impl ReadyBatch {
    /// The selection by content.
    pub open spec fn view(&self) -> BatchModel {
        BatchModel {
            phase: match self.phase {
                ReadyBatchPhase::Steady { mailbox_delivered } => BatchPhaseModel::Steady {
                    mailbox_delivered,
                },
                ReadyBatchPhase::Fired { armings, continuations_remaining } => {
                    BatchPhaseModel::Fired {
                        armings: armings@,
                        continuations_remaining: continuations_remaining as nat,
                    }
                },
            },
            mailbox_through: self.mailbox_through,
            offloads_remaining: self.offloads_remaining as nat,
        }
    }

    /// A selection in which no timer has fired.
    pub fn steady(mailbox_through: AcceptedSequence, offloads_remaining: usize) -> (batch:
        ReadyBatch)
        ensures
            batch@ == BatchModel::steady(mailbox_through, offloads_remaining as nat),
    {
        ReadyBatch {
            phase: ReadyBatchPhase::Steady { mailbox_delivered: false },
            mailbox_through,
            offloads_remaining,
        }
    }

    /// Widens a steady selection to everything ready when its timers fired.
    pub fn promote_to_fired(
        &mut self,
        armings: VecDeque<ArmingOrder>,
        continuations_remaining: usize,
        mailbox_through: AcceptedSequence,
        offloads_remaining: usize,
    )
        requires
            armings@.len() > 0,
            !old(self)@.fired(),
        ensures
            final(self)@ == (BatchModel {
                phase: BatchPhaseModel::Fired {
                    armings: armings@,
                    continuations_remaining: continuations_remaining as nat,
                },
                mailbox_through,
                offloads_remaining: offloads_remaining as nat,
            }),
    {
        self.phase = ReadyBatchPhase::Fired { armings, continuations_remaining };
        self.mailbox_through = mailbox_through;
        self.offloads_remaining = offloads_remaining;
    }

    /// Whether the one mailbox delivery of a steady selection was made.
    pub fn mailbox_budget_exhausted(&self) -> (exhausted: bool)
        ensures
            exhausted == self@.budget_exhausted(),
    {
        match &self.phase {
            ReadyBatchPhase::Steady { mailbox_delivered } => *mailbox_delivered,
            ReadyBatchPhase::Fired { .. } => false,
        }
    }

    /// Whether the mailbox may be read.
    pub fn mailbox_is_eligible(&self) -> (eligible: bool)
        ensures
            eligible == self@.reads_mailbox(),
    {
        match &self.phase {
            ReadyBatchPhase::Steady { mailbox_delivered } => !*mailbox_delivered,
            ReadyBatchPhase::Fired { .. } => true,
        }
    }

    /// Whether timers have fired.
    pub fn is_fired(&self) -> (fired: bool)
        ensures
            fired == self@.fired(),
    {
        match &self.phase {
            ReadyBatchPhase::Steady { .. } => false,
            ReadyBatchPhase::Fired { .. } => true,
        }
    }

    /// Whether a continuation may be delivered.
    pub fn continuation_is_eligible(&self) -> (eligible: bool)
        ensures
            eligible == self@.admits_continuation(),
    {
        match &self.phase {
            ReadyBatchPhase::Steady { .. } => true,
            ReadyBatchPhase::Fired { continuations_remaining, .. } => *continuations_remaining > 0,
        }
    }

    /// Counts a delivered continuation.
    pub fn record_continuation_delivery(&mut self)
        requires
            old(self)@.admits_continuation(),
        ensures
            final(self)@ == old(self)@.continued(),
    {
        match &mut self.phase {
            ReadyBatchPhase::Steady { .. } => {},
            ReadyBatchPhase::Fired { continuations_remaining, .. } => {
                *continuations_remaining = *continuations_remaining - 1;
            },
        }
    }

    /// Counts a delivered mailbox message.
    pub fn record_mailbox_delivery(&mut self)
        requires
            old(self)@.reads_mailbox(),
        ensures
            final(self)@ == old(self)@.mailed(),
    {
        match &mut self.phase {
            ReadyBatchPhase::Steady { mailbox_delivered } => {
                *mailbox_delivered = true;
            },
            ReadyBatchPhase::Fired { .. } => {},
        }
    }

    /// The next arming to deliver.
    pub fn next_arming(&self) -> (arming: Option<ArmingOrder>)
        ensures
            arming == if self@.armings().len() > 0 {
                Some(self@.armings()[0])
            } else {
                None
            },
    {
        match &self.phase {
            ReadyBatchPhase::Steady { .. } => None,
            ReadyBatchPhase::Fired { armings, .. } => if armings.len() > 0 {
                Some(armings[0])
            } else {
                None
            },
        }
    }

    /// Strikes the next arming off, once it was delivered or found retracted.
    pub fn commit_arming(&mut self, arming: ArmingOrder)
        requires
            old(self)@.armings().len() > 0,
            old(self)@.armings()[0] == arming,
        ensures
            final(self)@ == old(self)@.past_armings(1),
    {
        match &mut self.phase {
            ReadyBatchPhase::Steady { .. } => {},
            ReadyBatchPhase::Fired { armings, .. } => {
                let _ = armings.pop_front();
            },
        }
        proof {
            assert(self@.armings() =~= old(self)@.armings().skip(1));
        }
    }
}

/// How many items at the front of `items` satisfy `holds`.
pub open spec fn leading<T>(items: Seq<T>, holds: spec_fn(T) -> bool) -> nat
    decreases items.len(),
{
    if items.len() > 0 && holds(items[0]) {
        1 + leading(items.skip(1), holds)
    } else {
        0
    }
}

/// The front of a sequence ends where an item first fails.
proof fn lemma_leading<T>(items: Seq<T>, holds: spec_fn(T) -> bool, count: int)
    requires
        0 <= count <= items.len(),
        forall|i: int| 0 <= i < count ==> holds(#[trigger] items[i]),
        count < items.len() ==> !holds(items[count]),
    ensures
        leading(items, holds) == count,
    decreases items.len(),
{
    if count > 0 {
        let rest = items.skip(1);
        assert forall|i: int| 0 <= i < count - 1 implies holds(#[trigger] rest[i]) by {
            assert(rest[i] == items[i + 1]);
        }
        lemma_leading(rest, holds, count - 1);
    }
}

/// The front is no longer than the sequence, holds, and ends where it must.
pub proof fn lemma_leading_bounds<T>(items: Seq<T>, holds: spec_fn(T) -> bool)
    ensures
        leading(items, holds) <= items.len(),
        forall|i: int| 0 <= i < leading(items, holds) ==> holds(#[trigger] items[i]),
        leading(items, holds) < items.len() ==> !holds(items[leading(items, holds) as int]),
    decreases items.len(),
{
    if items.len() > 0 && holds(items[0]) {
        let rest = items.skip(1);
        lemma_leading_bounds(rest, holds);
        let count = leading(rest, holds);
        assert forall|i: int| 0 <= i < count + 1 implies holds(#[trigger] items[i]) by {
            if i > 0 {
                assert(items[i] == rest[i - 1]);
            }
        }
        if count < rest.len() {
            assert(rest[count as int] == items[count as int + 1]);
        }
    }
}

/// What a turn of selection came to.
pub enum TurnEnd<M, C> {
    /// A continuation.
    Continuation(M),
    /// An accepted message.
    Mail(Envelope<M>),
    /// A completion.
    Completion(QueuedEvent<C>),
    /// A fired one-shot timer.
    Timer(TimerEntry<M>),
    /// A fired interval, still to be copied and armed again.
    Tick(ArmingOrder),
    /// Nothing, and another turn may find something.
    Again,
    /// Nothing is ready.
    Idle,
    /// A panic of earlier cleanup is to be resumed first.
    Resume(PanicPayload),
}

impl<M, C> TurnEnd<M, C> {
    /// What the turn hands out.
    pub open spec fn found(self) -> Found<M, C> {
        match self {
            TurnEnd::Continuation(message) => Found::Message(message),
            TurnEnd::Mail(envelope) => Found::Message(envelope.message),
            TurnEnd::Completion(event) => Found::Completion(event.make_message),
            TurnEnd::Timer(entry) => Found::Message(entry.message.message()),
            TurnEnd::Tick(order) => Found::Tick(order),
            TurnEnd::Again => Found::Again,
            TurnEnd::Idle => Found::Idle,
            TurnEnd::Resume(payload) => Found::Resume(payload),
        }
    }
}

/// One turn of selection.
#[verifier::ext_equal]
pub struct Turn<M, C, W> {
    /// The incarnation after it.
    pub owned: RawModel<M, C, W>,
    /// The mailbox after it.
    pub mailbox: MailboxModel<M>,
    /// What the mailbox owes its surroundings.
    pub effects: EffectsModel<M>,
    /// What is to be destroyed.
    pub cleanup: Seq<Cleanup<M, C, W>>,
    /// What it came to.
    pub end: TurnEnd<M, C>,
}

/// Whether an offload was cancelled before its completion was delivered.
pub open spec fn cancelled_in<C>(latches: Seq<bool>) -> spec_fn(QueuedEvent<C>) -> bool {
    |event: QueuedEvent<C>| is_set(latches, event.cancellation)
}

/// Whether a captured arming's timer was retracted.
pub open spec fn retracted_from<M>(timers: TimerModel<M>) -> spec_fn(ArmingOrder) -> bool {
    |arming: ArmingOrder| !timers.entries.dom().contains(arming.0)
}

impl<M> TimerModel<M> {
    /// Whether a deadline is due.
    pub open spec fn any_due(self, now: Instant) -> bool {
        exists|pair: Armed| #[trigger] self.armed.contains(pair) && pair.0@ <= now@
    }
}

impl<M, C, W> RawModel<M, C, W> {
    /// Whether a timer is due.
    pub open spec fn timer_is_due(self, now: Instant) -> bool {
        self.timers.any_due(now)
    }

    /// The incarnation with a selection in progress. Timers due at `now` widen
    /// a steady one to everything ready now.
    pub open spec fn begun(self, accepted: AcceptedSequence, now: Instant) -> RawModel<M, C, W> {
        let batch = match self.batch {
            Some(batch) => batch,
            None => BatchModel::steady(accepted, self.events.len()),
        };
        if batch.fired() || !self.timer_is_due(now) {
            RawModel { batch: Some(batch), ..self }
        } else {
            RawModel {
                batch: Some(
                    BatchModel {
                        phase: BatchPhaseModel::Fired {
                            armings: self.timers.due_orders(now),
                            continuations_remaining: self.continuations.len(),
                        },
                        mailbox_through: accepted,
                        offloads_remaining: self.events.len(),
                    },
                ),
                timers: self.timers.after_due(now),
                ..self
            }
        }
    }

    /// Whether work of other sources than the actor itself is ready behind the
    /// selection's cuts.
    pub open spec fn external_work(self, batch: BatchModel, accepted: AcceptedSequence) -> bool {
        batch.budget_exhausted() || accepted.0 > batch.mailbox_through.0 || self.events.len() > 0
    }

    /// The mail a begun selection finds.
    pub open spec fn mail(self, mailbox: MailboxModel<M>, incarnation: Incarnation) -> Option<
        Envelope<M>,
    > {
        let batch = self.batch->Some_0;
        if batch.reads_mailbox() {
            mailbox.received(incarnation, ReceiveMode::LiveThrough(batch.mailbox_through))
        } else {
            None
        }
    }

    /// The incarnation once the first `count` captured completions left it.
    pub open spec fn past_events(self, count: nat) -> RawModel<M, C, W> {
        let batch = self.batch->Some_0;
        RawModel {
            events: self.events.skip(count as int),
            batch: Some(
                BatchModel {
                    offloads_remaining: (batch.offloads_remaining - count) as nat,
                    ..batch
                },
            ),
            ..self
        }
    }

    /// What is left of a turn once continuation, mailbox and completions had
    /// theirs.
    pub open spec fn late_turn(
        self,
        mailbox: MailboxModel<M>,
        now: Instant,
        cleanup: Seq<Cleanup<M, C, W>>,
    ) -> Turn<M, C, W> {
        let batch = self.batch->Some_0;
        let accepted = AcceptedSequence(mailbox.accepted);
        let armings = batch.armings();
        let missing = leading(armings, retracted_from(self.timers));
        if !batch.fired() && self.last_delivery_was_continuation && self.external_work(
            batch,
            accepted,
        ) {
            Turn {
                owned: RawModel { batch: None, ..self },
                mailbox,
                effects: no_effects(),
                cleanup,
                end: TurnEnd::Again,
            }
        } else if self.can_continue(false) {
            Turn {
                owned: self.continued(),
                mailbox,
                effects: no_effects(),
                cleanup,
                end: TurnEnd::Continuation(self.continuations[0]),
            }
        } else if missing < armings.len() && self.timers.entries[armings[missing as int].0].period
            is Some {
            Turn {
                owned: RawModel { batch: Some(batch.past_armings(missing as int)), ..self },
                mailbox,
                effects: no_effects(),
                cleanup,
                end: TurnEnd::Tick(armings[missing as int]),
            }
        } else if missing < armings.len() {
            let order = armings[missing as int].0;
            Turn {
                owned: RawModel {
                    timers: self.timers.delivered(order, now),
                    batch: Some(batch.past_armings(missing as int + 1)),
                    last_delivery_was_continuation: false,
                    ..self
                },
                mailbox,
                effects: no_effects(),
                cleanup: cleanup + discarded_timers::<M, C, W>(self.timers.delivery_garbage(order)),
                end: TurnEnd::Timer(self.timers.entries[order]),
            }
        } else {
            Turn {
                owned: RawModel { batch: None, ..self },
                mailbox,
                effects: no_effects(),
                cleanup,
                end: if self.external_work(batch, accepted) || self.continuations.len() > 0
                    || self.timer_is_due(now) {
                    TurnEnd::Again
                } else {
                    TurnEnd::Idle
                },
            }
        }
    }

    /// One turn: at most one continuation leads, then the mailbox, the
    /// captured completions, the other captured continuations and last the
    /// fired timers.
    pub open spec fn turn(
        self,
        mailbox: MailboxModel<M>,
        incarnation: Incarnation,
        latches: Seq<bool>,
        now: Instant,
    ) -> Turn<M, C, W> {
        let begun = self.begun(AcceptedSequence(mailbox.accepted), now);
        let batch = begun.batch->Some_0;
        let mode = ReceiveMode::LiveThrough(batch.mailbox_through);
        let captured = begun.events.take(batch.offloads_remaining as int);
        let cancelled = leading(captured, cancelled_in(latches));
        let cleanup = discarded_events::<M, C, W>(captured.take(cancelled as int));
        if begun.can_continue(true) {
            Turn {
                owned: begun.continued(),
                mailbox,
                effects: no_effects(),
                cleanup: seq![],
                end: TurnEnd::Continuation(begun.continuations[0]),
            }
        } else if begun.mail(mailbox, incarnation) is Some {
            Turn {
                owned: RawModel {
                    batch: Some(batch.mailed()),
                    last_delivery_was_continuation: false,
                    ..begun
                },
                mailbox: mailbox.after_receive(incarnation, mode),
                effects: mailbox.receive_effects(incarnation, mode),
                cleanup: seq![],
                end: TurnEnd::Mail(begun.mail(mailbox, incarnation)->Some_0),
            }
        } else if cancelled < captured.len() {
            Turn {
                owned: begun.past_events((cancelled + 1) as nat),
                mailbox,
                effects: no_effects(),
                cleanup,
                end: TurnEnd::Completion(captured[cancelled as int]),
            }
        } else {
            begun.past_events(cancelled).late_turn(mailbox, now, cleanup)
        }
    }

    /// A whole selection: a turn, and where it found nothing and has nothing
    /// to destroy, another.
    pub open spec fn selection(
        self,
        mailbox: MailboxModel<M>,
        incarnation: Incarnation,
        latches: Seq<bool>,
        now: Instant,
    ) -> Turn<M, C, W> {
        let first = self.turn(mailbox, incarnation, latches, now);
        if first.end is Again && first.cleanup.len() == 0 {
            first.owned.turn(mailbox, incarnation, latches, now)
        } else {
            first
        }
    }
}

impl<M, C, W> RawModel<M, C, W> {
    /// What is selected next: offloads that finished are forgotten, and a panic
    /// of earlier cleanup comes before any input.
    pub open spec fn selects(
        self,
        mailbox: MailboxModel<M>,
        incarnation: Incarnation,
        latches: Seq<bool>,
        now: Instant,
    ) -> Turn<M, C, W> {
        let owned = self.reclaimed(latches);
        match owned.panic {
            Some(payload) => Turn {
                owned: RawModel { panic: None, ..owned },
                mailbox,
                effects: no_effects(),
                cleanup: seq![],
                end: TurnEnd::Resume(payload),
            },
            None => owned.selection(mailbox, incarnation, latches, now),
        }
    }

    /// The incarnation once what was found has become a message: a completion
    /// was built, or an interval copied and armed again.
    pub open spec fn settled(self, found: Found<M, C>, now: Instant) -> RawModel<M, C, W> {
        match found {
            Found::Completion(_) => RawModel { last_delivery_was_continuation: false, ..self },
            Found::Tick(order) => RawModel {
                timers: self.timers.delivered(order.0, now),
                batch: Some(self.batch->Some_0.past_armings(1)),
                last_delivery_was_continuation: false,
                ..self
            },
            _ => self,
        }
    }

    /// Whether `order` is the next arming of the selection in progress, and an
    /// interval's.
    pub open spec fn ticks(self, order: ArmingOrder) -> bool {
        &&& self.batch is Some
        &&& self.batch->Some_0.armings().len() > 0
        &&& self.batch->Some_0.armings()[0] == order
        &&& self.timers.entries.dom().contains(order.0)
        &&& self.timers.entries[order.0].period is Some
    }

    /// Whether `message` is made of what was found. Completions are built by
    /// `build`; an interval delivers a copy made by `clone_message`.
    pub open spec fn makes<F: Fn(&M) -> M, B: Fn(C) -> M>(
        self,
        found: Found<M, C>,
        message: M,
        clone_message: F,
        build: B,
    ) -> bool {
        match found {
            Found::Message(held) => message == held,
            Found::Completion(completion) => call_ensures(build, (completion,), message),
            Found::Tick(order) => call_ensures(
                clone_message,
                (&self.timers.entries[order.0].message.message(),),
                message,
            ),
            _ => false,
        }
    }
}

/// What a selection found. User code that makes a message of it runs once the
/// selection's cleanup has.
#[derive(Debug)]
pub enum Found<M, C> {
    /// The next message.
    Message(M),
    /// A completion, whose message is still to be built.
    Completion(C),
    /// A fired interval, whose message is still to be copied.
    Tick(ArmingOrder),
    /// What was found is to be destroyed first; then select again.
    Again,
    /// Nothing is ready.
    Idle,
    /// A panic retained from cleanup, which the receive resumes.
    Resume(PanicPayload),
}

/// What a settled selection hands back.
#[derive(Debug)]
pub enum Ready<M> {
    /// The next message.
    Message(M),
    /// Select again.
    Again,
    /// Nothing is ready.
    Idle,
    /// A panic retained from cleanup, which the receive resumes.
    Resume(PanicPayload),
}

/// Delivering one captured arming leaves the others captured.
proof fn lemma_armings_after_delivery<M>(
    armings: Seq<ArmingOrder>,
    timers: TimerModel<M>,
    now: Instant,
)
    requires
        armings.len() > 0,
        armings_fit(armings, timers),
    ensures
        armings_fit(armings.skip(1), timers.delivered(armings[0].0, now)),
{
    let rest = armings.skip(1);
    let after = timers.delivered(armings[0].0, now);
    assert forall|i: int| 0 <= i < rest.len() implies after.fired((#[trigger] rest[i]).0)
        && rest[i].0 <= after.minted by {
        assert(rest[i] == armings[i + 1]);
        assert(timers.fired(armings[i + 1].0));
        assert(armings[0] != armings[i + 1]);
        assert forall|pair: Armed| #[trigger] after.armed.contains(pair) implies pair.1
            != rest[i].0 by {
            if pair.1 != armings[0].0 {
                assert(timers.armed.contains(pair));
            }
        }
    }
    assert forall|i: int, j: int| 0 <= i < j < rest.len() implies #[trigger] rest[i]
        != #[trigger] rest[j] by {
        assert(rest[i] == armings[i + 1]);
        assert(rest[j] == armings[j + 1]);
    }
}

/// A timer is due exactly where the soonest deadline is.
proof fn lemma_due_by_soonest<M, C, W>(owned: RawModel<M, C, W>, at: Instant, now: Instant)
    requires
        owned.timers.soonest(at),
    ensures
        owned.timer_is_due(now) <==> at@ <= now@,
{
    let order = choose|order: u64| #[trigger] owned.timers.armed.contains((at, order));
    if at@ <= now@ {
        let pair: Armed = (at, order);
        assert(owned.timers.armed.contains(pair) && pair.0@ <= now@);
    }
}

impl<M, C, W> RawResources<M, C, W> {
    /// Whether a timer is due.
    fn timer_is_due(&self, now: Instant) -> (due: bool)
        requires
            self.wf(),
        ensures
            due == self@.timer_is_due(now),
    {
        match self.timers.next_deadline() {
            Some(at) => {
                proof {
                    lemma_due_by_soonest(self@, at, now);
                }
                !now.before(&at)
            },
            None => false,
        }
    }

    /// Whether work of other sources than the actor itself is ready behind the
    /// given cuts.
    pub fn external_work_is_ready(
        &self,
        mailbox_budget_exhausted: bool,
        mailbox_cutoff: AcceptedSequence,
        accepted: AcceptedSequence,
    ) -> (ready: bool)
        ensures
            ready == (mailbox_budget_exhausted || accepted.0 > mailbox_cutoff.0
                || self@.events.len() > 0),
    {
        mailbox_budget_exhausted || accepted.0 > mailbox_cutoff.0 || self.events.watermark() > 0
    }

    /// Takes up the selection in progress or begins one. Timers due at `now`
    /// widen a steady one to everything ready now.
    pub fn begin_ready_batch(&mut self, accepted: AcceptedSequence, now: Instant)
        requires
            old(self).wf(),
        ensures
            final(self).wf(),
            final(self)@ == old(self)@.begun(accepted, now),
            final(self).events == old(self).events,
    {
        if self.ready_batch.is_none() {
            self.ready_batch = Some(ReadyBatch::steady(accepted, self.events.watermark()));
        }
        let due = self.timer_is_due(now);
        let watermark: usize = self.events.watermark();
        let continuations: usize = self.continuations.len();
        if let Some(batch) = &mut self.ready_batch {
            if batch.is_fired() || !due {
                return;
            }
            let ghost timers = self.timers@;
            let armings = self.timers.take_due(now);
            proof {
                law_a_fire_takes_each_due_timer_once(timers, now);
                lemma_store_is_listed(self.timers);
                let pair = choose|pair: Armed| #[trigger]
                    timers.armed.contains(pair) && pair.0@ <= now@;
                assert(timers.armed.contains(pair));
            }
            let armings: VecDeque<ArmingOrder> = in_order(armings);
            batch.promote_to_fired(armings, continuations, accepted, watermark);
        }
    }

    /// Takes the oldest captured completion that was not cancelled; cancelled
    /// ones before it are to be destroyed.
    fn take_completion(&mut self, latches: &LatchTable, cleanup: &mut Vec<Cleanup<M, C, W>>) -> (event:
        Option<QueuedEvent<C>>)
        requires
            old(self).wf(),
            old(self)@.batch is Some,
        ensures
            final(self).wf(),
            ({
                let captured = old(self)@.events.take(
                    old(self)@.batch->Some_0.offloads_remaining as int,
                );
                let cancelled = leading(captured, cancelled_in(latches@));
                &&& final(cleanup)@ == old(cleanup)@ + discarded_events::<M, C, W>(
                    captured.take(cancelled as int),
                )
                &&& if cancelled < captured.len() {
                    event == Some(captured[cancelled as int]) && final(self)@ == old(
                        self,
                    )@.past_events((cancelled + 1) as nat)
                } else {
                    event is None && final(self)@ == old(self)@.past_events(cancelled)
                }
            }),
            final(self).events.pulsed == old(self).events.pulsed,
    {
        let ghost first = self@;
        let ghost captured = first.events.take(first.batch->Some_0.offloads_remaining as int);
        let ghost holds = cancelled_in::<C>(latches@);
        let ghost mut count: nat = 0;
        proof {
            assert(self@ =~= first.past_events(0)) by {
                assert(first.events.skip(0) =~= first.events);
            }
            assert(cleanup@ + discarded_events::<M, C, W>(captured.take(0)) =~= cleanup@);
        }
        loop
            invariant
                self.wf(),
                first == old(self)@,
                first.batch is Some,
                first.batch->Some_0.offloads_remaining <= first.events.len(),
                captured == first.events.take(first.batch->Some_0.offloads_remaining as int),
                holds == cancelled_in::<C>(latches@),
                count <= captured.len(),
                self@ == first.past_events(count),
                forall|i: int| 0 <= i < count ==> holds(#[trigger] captured[i]),
                cleanup@ == old(cleanup)@ + discarded_events::<M, C, W>(
                    captured.take(count as int),
                ),
                self.events.pulsed == old(self).events.pulsed,
            ensures
                count == captured.len(),
            decreases captured.len() - count,
        {
            let event = match self.pop_batched_event() {
                Some(event) => event,
                None => {
                    break ;
                },
            };
            proof {
                assert(count < captured.len());
                assert(first.past_events(count).events[0] == captured[count as int]);
                assert(first.events.skip(count as int).skip(1) =~= first.events.skip(
                    count as int + 1,
                ));
                assert(self@ =~= first.past_events((count + 1) as nat));
            }
            if !latches.is_fired(event.cancellation) {
                proof {
                    lemma_leading(captured, holds, count as int);
                }
                return Some(event);
            }
            cleanup.push(Cleanup::Completion(event));
            proof {
                assert(discarded_events::<M, C, W>(captured.take(count as int)).push(
                    Cleanup::Completion(event),
                ) =~= discarded_events::<M, C, W>(captured.take(count as int + 1)));
                count = (count + 1) as nat;
                assert(cleanup@ =~= old(cleanup)@ + discarded_events::<M, C, W>(
                    captured.take(count as int),
                ));
            }
        }
        proof {
            lemma_leading(captured, holds, count as int);
        }
        None
    }
}

impl<M, C, W> RawResources<M, C, W> {
    /// Finds the next captured arming whose timer was not retracted. A one-shot
    /// is delivered; an interval stays the next arming.
    fn take_timer(&mut self, now: Instant, cleanup: &mut Vec<Cleanup<M, C, W>>) -> (found: Option<
        Found<M, C>,
    >)
        requires
            old(self).wf(),
            old(self)@.batch is Some,
        ensures
            final(self).wf(),
            ({
                let owned = old(self)@;
                let batch = owned.batch->Some_0;
                let missing = leading(batch.armings(), retracted_from(owned.timers));
                if missing < batch.armings().len() {
                    let arming = batch.armings()[missing as int];
                    let entry = owned.timers.entries[arming.0];
                    if entry.period is Some {
                        &&& found == Some(Found::<M, C>::Tick(arming))
                        &&& final(self)@ == (RawModel {
                            batch: Some(batch.past_armings(missing as int)),
                            ..owned
                        })
                        &&& final(cleanup)@ == old(cleanup)@
                    } else {
                        &&& found == Some(Found::<M, C>::Message(entry.message.message()))
                        &&& final(self)@ == (RawModel {
                            timers: owned.timers.delivered(arming.0, now),
                            batch: Some(batch.past_armings(missing as int + 1)),
                            ..owned
                        })
                        &&& final(cleanup)@ == old(cleanup)@ + discarded_timers::<M, C, W>(
                            owned.timers.delivery_garbage(arming.0),
                        )
                    }
                } else {
                    &&& found is None
                    &&& final(self)@ == (RawModel {
                        batch: Some(batch.past_armings(missing as int)),
                        ..owned
                    })
                    &&& final(cleanup)@ == old(cleanup)@
                }
            }),
            final(self).events == old(self).events,
    {
        let ghost first = self@;
        let ghost batch = first.batch->Some_0;
        let ghost armings = batch.armings();
        let ghost holds = retracted_from(first.timers);
        let ghost mut count: int = 0;
        proof {
            assert(armings.skip(0) =~= armings);
            assert(self@ =~= (RawModel { batch: Some(batch.past_armings(0)), ..first }));
        }
        loop
            invariant
                self.wf(),
                first == old(self)@,
                first.batch == Some(batch),
                armings == batch.armings(),
                holds == retracted_from(first.timers),
                0 <= count <= armings.len(),
                self@ == (RawModel { batch: Some(batch.past_armings(count)), ..first }),
                forall|i: int| 0 <= i < count ==> holds(#[trigger] armings[i]),
                cleanup@ == old(cleanup)@,
                self.events == old(self).events,
            ensures
                count == armings.len(),
            decreases armings.len() - count,
        {
            let next = match &self.ready_batch {
                Some(batch) => batch.next_arming(),
                None => None,
            };
            let arming = match next {
                Some(arming) => arming,
                None => {
                    break ;
                },
            };
            let ghost rest = batch.past_armings(count).armings();
            proof {
                assert(rest =~= armings.skip(count));
                assert(arming == armings[count]);
                assert(first.timers.fired(rest[0].0));
            }
            if self.timers.is_interval(arming) {
                proof {
                    lemma_leading(armings, holds, count);
                }
                return Some(Found::Tick(arming));
            }
            let mut garbage: Vec<Garbage<M>> = Vec::new();
            let message = self.timers.take_due_once(arming, &mut garbage);
            proof {
                assert(self.timers@ =~= first.timers.delivered(arming.0, now));
                lemma_armings_after_delivery(rest, first.timers, now);
                lemma_store_is_listed(self.timers);
                assert(rest.skip(1) =~= armings.skip(count + 1));
                assert(garbage@ =~= first.timers.delivery_garbage(arming.0));
            }
            if let Some(batch) = &mut self.ready_batch {
                batch.commit_arming(arming);
            }
            proof {
                assert(self@.batch->Some_0 =~= batch.past_armings(count + 1));
            }
            if let Some(message) = message {
                discard_timers(garbage, cleanup);
                proof {
                    lemma_leading(armings, holds, count);
                }
                return Some(Found::Message(message));
            }
            proof {
                count = count + 1;
            }
        }
        proof {
            lemma_leading(armings, holds, count);
        }
        None
    }

    /// The rest of a turn, once continuation, mailbox and completions had
    /// theirs.
    fn run_late_turn(
        &mut self,
        accepted: AcceptedSequence,
        now: Instant,
        cleanup: &mut Vec<Cleanup<M, C, W>>,
        Ghost(mailbox): Ghost<MailboxModel<M>>,
    ) -> (found: Found<M, C>)
        requires
            old(self).wf(),
            old(self)@.batch is Some,
            accepted.0 == mailbox.accepted,
        ensures
            final(self).wf(),
            ({
                let turn = old(self)@.late_turn(mailbox, now, old(cleanup)@);
                &&& final(self)@ == turn.owned
                &&& final(cleanup)@ == turn.cleanup
                &&& found == turn.end.found()
            }),
            final(self).events.pulsed == old(self).events.pulsed,
    {
        let ghost first = self@;
        let (fired, exhausted, cutoff) = match &self.ready_batch {
            Some(batch) => (
                batch.is_fired(),
                batch.mailbox_budget_exhausted(),
                batch.mailbox_through,
            ),
            None => (false, false, accepted),
        };
        if !fired && self.last_delivery_was_continuation && self.external_work_is_ready(
            exhausted,
            cutoff,
            accepted,
        ) {
            self.ready_batch = None;
            return Found::Again;
        }
        if let Some(message) = self.pop_continuation(false) {
            return Found::Message(message);
        }
        if let Some(found) = self.take_timer(now, cleanup) {
            if let Found::Message(_) = &found {
                self.last_delivery_was_continuation = false;
            }
            return found;
        }
        self.ready_batch = None;
        proof {
            assert(self@ =~= (RawModel { batch: None, ..first }));
            lemma_leading_bounds(
                first.batch->Some_0.armings(),
                retracted_from(first.timers),
            );
        }
        if self.external_work_is_ready(exhausted, cutoff, accepted)
            || !self.continuations.is_empty() || self.timer_is_due(now) {
            Found::Again
        } else {
            Found::Idle
        }
    }
}

/// A turn that begins a selection finds something or nothing is ready: there is
/// no third.
pub proof fn law_a_fresh_turn_settles<M, C, W>(
    owned: RawModel<M, C, W>,
    mailbox: MailboxModel<M>,
    incarnation: Incarnation,
    latches: Seq<bool>,
    now: Instant,
)
    requires
        owned.wf(),
        owned.batch is None,
    ensures
        !(owned.turn(mailbox, incarnation, latches, now).end is Again),
{
    let accepted = AcceptedSequence(mailbox.accepted);
    let begun = owned.begun(accepted, now);
    let batch = begun.batch->Some_0;
    let captured = begun.events.take(batch.offloads_remaining as int);
    let cancelled = leading(captured, cancelled_in(latches));
    lemma_leading_bounds(captured, cancelled_in(latches));
    let late = begun.past_events(cancelled);
    if owned.timer_is_due(now) {
        law_a_fire_takes_each_due_timer_once(owned.timers, now);
        let armings = batch.armings();
        assert(armings.len() > 0) by {
            let pair = choose|pair: Armed| #[trigger]
                owned.timers.armed.contains(pair) && pair.0@ <= now@;
            assert(owned.timers.armed.contains(pair));
        }
        assert(owned.timers.entries.dom().contains(armings[0].0));
        assert(late.batch->Some_0.armings() == armings);
        assert(leading(armings, retracted_from(late.timers)) == 0);
    } else {
        if cancelled == captured.len() {
            assert(late.events =~= Seq::empty());
        }
        assert(late.timers == owned.timers);
    }
}

/// A turn that finds an interval leaves it the next arming.
proof fn lemma_tick_is_next<M, C, W>(
    owned: RawModel<M, C, W>,
    mailbox: MailboxModel<M>,
    incarnation: Incarnation,
    latches: Seq<bool>,
    now: Instant,
)
    ensures
        ({
            let turn = owned.turn(mailbox, incarnation, latches, now);
            turn.end matches TurnEnd::Tick(order) ==> turn.owned.ticks(order)
        }),
{
    let begun = owned.begun(AcceptedSequence(mailbox.accepted), now);
    let batch = begun.batch->Some_0;
    let captured = begun.events.take(batch.offloads_remaining as int);
    let late = begun.past_events(leading(captured, cancelled_in(latches)));
    lemma_leading_bounds(batch.armings(), retracted_from(begun.timers));
    assert(late.batch->Some_0.armings() == batch.armings());
}

impl<M, C, W> RawResources<M, C, W> {
    /// One turn of selection. The selection stays in progress while user code
    /// runs, so that one which unwinds leaves the same cuts to the next
    /// receive.
    fn run_turn(
        &mut self,
        mailbox: &mut MailboxCell<M>,
        incarnation: Incarnation,
        latches: &LatchTable,
        now: Instant,
        cleanup: &mut Vec<Cleanup<M, C, W>>,
    ) -> (outcome: (Found<M, C>, MailboxEffects<M>))
        requires
            old(self).wf(),
            old(mailbox)@.wf(),
            old(mailbox)@.accepted < u64::MAX,
            old(cleanup)@.len() == 0,
        ensures
            final(self).wf(),
            final(mailbox)@.wf(),
            ({
                let turn = old(self)@.turn(old(mailbox)@, incarnation, latches@, now);
                &&& final(self)@ == turn.owned
                &&& final(mailbox)@ == turn.mailbox
                &&& outcome.0 == turn.end.found()
                &&& outcome.1@ == turn.effects
                &&& final(cleanup)@ == turn.cleanup
            }),
            final(self).events.pulsed == old(self).events.pulsed,
    {
        let accepted = mailbox.accepted_sequence();
        self.begin_ready_batch(accepted, now);
        let ghost begun = self@;
        let ghost captured = begun.events.take(begun.batch->Some_0.offloads_remaining as int);
        let ghost cancelled = leading(captured, cancelled_in(latches@));
        proof {
            lemma_leading_bounds(captured, cancelled_in(latches@));
        }
        if let Some(message) = self.pop_continuation(true) {
            return (Found::Message(message), MailboxEffects::new());
        }
        if let Some(batch) = &mut self.ready_batch {
            if batch.mailbox_is_eligible() {
                let (message, effects) = MailboxReceiver::new(incarnation).try_recv_live_through(
                    mailbox,
                    batch.mailbox_through,
                );
                if let Some(message) = message {
                    batch.record_mailbox_delivery();
                    self.last_delivery_was_continuation = false;
                    return (Found::Message(message), effects);
                }
            }
        }
        if let Some(event) = self.take_completion(latches, cleanup) {
            return (Found::Completion(event.make_message), MailboxEffects::new());
        }
        proof {
            assert(cleanup@ =~= discarded_events::<M, C, W>(captured.take(cancelled as int)));
        }
        let found = self.run_late_turn(accepted, now, cleanup, Ghost(mailbox@));
        (found, MailboxEffects::new())
    }

    /// Selects the next input without waiting, unless a panic of earlier
    /// cleanup is to be resumed first. A selection takes at most two turns; one
    /// that has something to destroy between them hands back `Again`.
    pub fn select_ready(
        &mut self,
        mailbox: &mut MailboxCell<M>,
        incarnation: Incarnation,
        latches: &LatchTable,
        now: Instant,
        cleanup: &mut Vec<Cleanup<M, C, W>>,
    ) -> (outcome: (Found<M, C>, MailboxEffects<M>))
        requires
            old(self).wf(),
            old(mailbox)@.wf(),
            old(mailbox)@.accepted < u64::MAX,
            old(cleanup)@.len() == 0,
        ensures
            final(self).wf(),
            final(mailbox)@.wf(),
            ({
                let turn = old(self)@.selects(old(mailbox)@, incarnation, latches@, now);
                &&& final(self)@ == turn.owned
                &&& final(mailbox)@ == turn.mailbox
                &&& outcome.0 == turn.end.found()
                &&& outcome.1@ == turn.effects
                &&& final(cleanup)@ == turn.cleanup
            }),
            outcome.0 matches Found::Tick(order) ==> final(self)@.ticks(order),
            final(self).events.pulsed == old(self).events.pulsed,
    {
        self.reclaim_finished(latches);
        if let Some(payload) = self.resume_pending_panic() {
            return (Found::Resume(payload), MailboxEffects::new());
        }
        let ghost owned = self@;
        proof {
            assert(owned =~= old(self)@.reclaimed(latches@));
            let first = owned.turn(mailbox@, incarnation, latches@, now);
            lemma_tick_is_next(owned, mailbox@, incarnation, latches@, now);
            lemma_tick_is_next(first.owned, mailbox@, incarnation, latches@, now);
        }
        let (found, effects) = self.run_turn(mailbox, incarnation, latches, now, cleanup);
        if !matches!(found, Found::Again) || cleanup.len() > 0 {
            return (found, effects);
        }
        self.run_turn(mailbox, incarnation, latches, now, cleanup)
    }

    /// Settles a selection once its cleanup has run: what was found becomes a
    /// message. A panic that cleanup retained is resumed in place of the
    /// message, which is then to be destroyed first.
    pub fn next_ready<F: Fn(&M) -> M, B: Fn(C) -> M>(
        &mut self,
        found: Found<M, C>,
        now: Instant,
        clone_message: &F,
        build: &B,
    ) -> (outcome: (Ready<M>, Option<M>))
        requires
            old(self).wf(),
            found matches Found::Tick(order) ==> old(self)@.ticks(order),
            forall|message: &M| #[trigger] call_requires(*clone_message, (message,)),
            forall|completion: C| #[trigger] call_requires(*build, (completion,)),
        ensures
            final(self).wf(),
            final(self)@ == if found is Resume {
                old(self)@
            } else {
                RawModel { panic: None, ..old(self)@.settled(found, now) }
            },
            match found {
                Found::Resume(payload) => outcome == (Ready::<M>::Resume(payload), None::<M>),
                Found::Again => outcome == (match old(self)@.panic {
                    Some(payload) => Ready::<M>::Resume(payload),
                    None => Ready::<M>::Again,
                }, None::<M>),
                Found::Idle => outcome == (match old(self)@.panic {
                    Some(payload) => Ready::<M>::Resume(payload),
                    None => Ready::<M>::Idle,
                }, None::<M>),
                _ => match old(self)@.panic {
                    Some(payload) => {
                        &&& outcome.0 == Ready::<M>::Resume(payload)
                        &&& outcome.1 matches Some(message)
                        &&& old(self)@.makes(found, message, *clone_message, *build)
                    },
                    None => {
                        &&& outcome.1 is None
                        &&& outcome.0 matches Ready::Message(message)
                        &&& old(self)@.makes(found, message, *clone_message, *build)
                    },
                },
            },
            final(self).events.pulsed == old(self).events.pulsed,
    {
        let ghost first = self@;
        let message = match found {
            Found::Message(message) => message,
            Found::Completion(completion) => {
                let message = build(completion);
                self.last_delivery_was_continuation = false;
                message
            },
            Found::Tick(order) => {
                let ghost armings = first.batch->Some_0.armings();
                proof {
                    assert(first.timers.fired(armings[0].0));
                }
                let message = match self.timers.rearm_interval(order, now, clone_message) {
                    IntervalRearm::Interval(message) => message,
                    _ => vstd::pervasive::unreached(),
                };
                proof {
                    lemma_armings_after_delivery(armings, first.timers, now);
                    lemma_store_is_listed(self.timers);
                }
                if let Some(batch) = &mut self.ready_batch {
                    batch.commit_arming(order);
                }
                self.last_delivery_was_continuation = false;
                proof {
                    assert(self@ =~= first.settled(found, now));
                }
                message
            },
            Found::Again => {
                return (match self.panic.take() {
                    Some(payload) => Ready::Resume(payload),
                    None => Ready::Again,
                }, None);
            },
            Found::Idle => {
                return (match self.panic.take() {
                    Some(payload) => Ready::Resume(payload),
                    None => Ready::Idle,
                }, None);
            },
            Found::Resume(payload) => {
                return (Ready::Resume(payload), None);
            },
        };
        match self.panic.take() {
            Some(payload) => (Ready::Resume(payload), Some(message)),
            None => (Ready::Message(message), None),
        }
    }
}

/// The same armings, to be taken from the front.
fn in_order(armings: Vec<ArmingOrder>) -> (queue: VecDeque<ArmingOrder>)
    ensures
        queue@ == armings@,
{
    let mut queue: VecDeque<ArmingOrder> = VecDeque::new();
    let mut index: usize = 0;
    while index < armings.len()
        invariant
            index <= armings@.len(),
            queue@ == armings@.take(index as int),
        decreases armings@.len() - index,
    {
        queue.push_back(armings[index]);
        index = index + 1;
        proof {
            assert(queue@ =~= armings@.take(index as int));
        }
    }
    proof {
        assert(armings@.take(index as int) =~= armings@);
    }
    queue
}

} // verus!
