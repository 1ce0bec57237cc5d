//! What one raw incarnation can do.

use crate::identity::{ChildId, Incarnation};
use crate::mailbox::cell::MailboxCell;
use crate::mailbox::effects::MailboxEffects;
use crate::mailbox::handle::{ActorRef, MailboxReceiver};
use crate::mailbox::model::{no_effects, EffectsModel, MailboxModel};
use crate::mailbox::state::ReceiveMode;
use crate::policy::{MailboxShutdown, Readiness};
use crate::raw::disposal::{first_of, PanicPayload};
use crate::raw::latch::{is_set, LatchId, LatchTable};
use crate::raw::offload::{
    Blocking, DeadlineElapsed, Guard, OffloadResource, SharedOffloadState,
};
use crate::raw::resources::{
    all_known, armings_fit, discard_timers, discarded_timers, latches_after_cancelling, Cleanup,
    QueuedEvent, RawModel, RawResources,
};
use crate::raw::select::Found;
use crate::raw::timers::{
    lemma_store_is_listed, Armed, ArmingOrder, Garbage, TimerEntry, TimerKey, TimerMessage,
    TimerModel,
};
use crate::time::{Deadline, DeadlineBudget, Duration, Instant};
use vstd::prelude::*;

verus! {

/// An operation rejected because the incarnation is already stopping.
#[derive(Debug, PartialEq, Eq)]
pub struct Rejected<T> {
    payload: T,
}

impl<T> Rejected<T> {
    /// The payload.
    pub closed spec fn view(&self) -> T {
        self.payload
    }

    /// A rejection of `payload`.
    pub fn new(payload: T) -> (rejected: Rejected<T>)
        ensures
            rejected@ == payload,
    {
        Rejected { payload }
    }

    /// Recovers the payload that was never accepted.
    #[must_use]
    pub fn into_inner(self) -> (payload: T)
        ensures
            payload == self@,
    {
        self.payload
    }
}

/// A token that is cancelled by its own latch or by its parent's.
#[derive(Clone, Copy, Debug, PartialEq, Eq)]
pub struct CancellationToken {
    /// The parent's latch.
    pub parent: LatchId,
    /// The token's own latch.
    pub own: Option<LatchId>,
}

impl CancellationToken {
    /// Whether the token is cancelled.
    pub open spec fn cancelled(self, latches: Seq<bool>) -> bool {
        is_set(latches, self.parent) || (self.own matches Some(own) && is_set(latches, own))
    }

    /// Whether the token is cancelled.
    pub fn is_cancelled(&self, latches: &LatchTable) -> (cancelled: bool)
        ensures
            cancelled == self.cancelled(latches@),
    {
        latches.is_fired(self.parent) || match self.own {
            Some(own) => latches.is_fired(own),
            None => false,
        }
    }
}

/// Names a scope.
#[derive(Clone, Copy, Debug, PartialEq, Eq, Structural, Hash)]
pub struct ScopeId(pub u64);

/// Capabilities of one raw incarnation.
#[derive(Debug)]
pub struct RawContext<M, C, W> {
    /// The actor's child id.
    pub id: ChildId,
    /// A handle to the actor.
    pub myself: ActorRef<M>,
    /// The supervising scope.
    pub scope: ScopeId,
    /// Fires when shutdown is requested.
    pub shutdown: LatchId,
    /// Fires on escalation.
    pub abort: LatchId,
    /// Releases the readiness gate.
    pub ready: LatchId,
    /// Fires when the actor stops itself.
    pub local_stop: LatchId,
    /// Whether a stop waits for the initializer to return.
    pub deferred_init_stop: bool,
    /// The effective readiness mode.
    pub readiness: Readiness,
    /// The fate of the frozen mailbox prefix.
    pub mailbox_shutdown: MailboxShutdown,
    /// The incarnation's side of its mailbox.
    pub receiver: MailboxReceiver,
    /// What the incarnation owns.
    pub resources: RawResources<M, C, W>,
}

/// What a supervisor tells an incarnation about itself.
#[derive(Debug)]
pub struct RawRunContext {
    /// The actor's child id.
    pub id: ChildId,
    /// The incarnation.
    pub incarnation: Incarnation,
    /// The supervising scope.
    pub scope: ScopeId,
    /// Fires when shutdown is requested.
    pub shutdown: LatchId,
    /// Fires on escalation.
    pub abort: LatchId,
    /// Releases the readiness gate.
    pub ready: LatchId,
    /// Fires when the actor stops itself.
    pub local_stop: LatchId,
    /// The fate of the frozen mailbox prefix.
    pub mailbox_shutdown: MailboxShutdown,
}

/// Replacing a timer keeps captured armings captured: the new timer's arming
/// order is newer than all of theirs.
proof fn lemma_armings_after_replace<M>(
    armings: Seq<ArmingOrder>,
    timers: TimerModel<M>,
    entry: TimerEntry<M>,
)
    requires
        armings_fit(armings, timers),
        entry.arming_order.0 == timers.minted + 1,
    ensures
        armings_fit(armings, timers.cleared(entry.key).with(entry)),
{
    let after = timers.cleared(entry.key).with(entry);
    assert forall|i: int| 0 <= i < armings.len() implies after.fired((#[trigger] armings[i]).0)
        && armings[i].0 <= after.minted by {
        assert(timers.fired(armings[i].0));
        assert forall|pair: Armed| #[trigger] after.armed.contains(pair) implies pair.1
            != armings[i].0 by {
            if pair.1 != entry.arming_order.0 {
                assert(timers.armed.contains(pair));
            }
        }
    }
}

/// Clearing a timer keeps captured armings captured.
proof fn lemma_armings_after_clear<M>(
    armings: Seq<ArmingOrder>,
    timers: TimerModel<M>,
    key: TimerKey,
)
    requires
        armings_fit(armings, timers),
    ensures
        armings_fit(armings, timers.cleared(key)),
{
    let after = timers.cleared(key);
    assert forall|i: int| 0 <= i < armings.len() implies after.fired((#[trigger] armings[i]).0)
        && armings[i].0 <= after.minted by {
        assert(timers.fired(armings[i].0));
        assert forall|pair: Armed| #[trigger] after.armed.contains(pair) implies pair.1
            != armings[i].0 by {
            assert(timers.armed.contains(pair));
        }
    }
}

impl<M> TimerModel<M> {
    /// The store after a timer was armed under `key`, replacing the one there.
    pub open spec fn armed_with(
        self,
        key: TimerKey,
        message: TimerMessage<M>,
        period: Option<Duration>,
        deadline: Option<Instant>,
    ) -> TimerModel<M> {
        self.cleared(key).with(
            TimerEntry {
                key,
                deadline,
                arming_order: ArmingOrder((self.minted + 1) as u64),
                message,
                period,
            },
        )
    }
}

impl<M, C, W> RawContext<M, C, W> {
    /// What holds of every context.
    pub open spec fn wf(&self, latches: LatchTable) -> bool {
        &&& self.resources.wf()
        &&& all_known(self.resources.offloads@, latches)
        &&& latches.has(self.shutdown)
        &&& latches.has(self.abort)
        &&& latches.has(self.ready)
        &&& latches.has(self.local_stop)
    }

    /// Whether a stop has begun: the actor's own, published or deferred, a
    /// shutdown, or an escalation.
    pub open spec fn stopping(&self, latches: Seq<bool>) -> bool {
        ||| self.deferred_init_stop
        ||| is_set(latches, self.local_stop)
        ||| is_set(latches, self.shutdown)
        ||| is_set(latches, self.abort)
    }

    /// Whether new work is turned away.
    pub open spec fn turns_away(&self, latches: Seq<bool>) -> bool {
        self.stopping(latches) || !self.resources.accepting
    }

    /// Whether everything but what the incarnation owns stayed as it was.
    pub open spec fn same_besides_resources(&self, other: RawContext<M, C, W>) -> bool {
        *self == (RawContext { resources: self.resources, ..other })
    }

    /// The context of an incarnation that starts.
    pub fn new(
        run: RawRunContext,
        myself: ActorRef<M>,
        readiness: Readiness,
    ) -> (context: RawContext<M, C, W>)
        ensures
            context.resources.wf(),
            context.resources@ == RawModel::<M, C, W>::unused(),
            !context.resources.events.pulsed,
            context.id == run.id,
            context.receiver.incarnation == run.incarnation,
            context.myself == myself,
            context.scope == run.scope,
            context.shutdown == run.shutdown,
            context.abort == run.abort,
            context.ready == run.ready,
            context.local_stop == run.local_stop,
            !context.deferred_init_stop,
            context.readiness == readiness,
            context.mailbox_shutdown == run.mailbox_shutdown,
    {
        RawContext {
            id: run.id,
            myself,
            scope: run.scope,
            shutdown: run.shutdown,
            abort: run.abort,
            ready: run.ready,
            local_stop: run.local_stop,
            deferred_init_stop: false,
            readiness,
            mailbox_shutdown: run.mailbox_shutdown,
            receiver: MailboxReceiver::new(run.incarnation),
            resources: RawResources::new(),
        }
    }

    /// This actor's child id.
    #[must_use]
    pub fn id(&self) -> (id: &ChildId)
        ensures
            *id == self.id,
    {
        &self.id
    }

    /// This actor's current incarnation.
    #[must_use]
    pub fn incarnation(&self) -> (incarnation: Incarnation)
        ensures
            incarnation == self.receiver.incarnation,
    {
        self.receiver.incarnation
    }

    /// A membership-addressed handle to this actor.
    #[must_use]
    pub fn myself(&self) -> (actor: ActorRef<M>)
        ensures
            actor.slot == self.myself.slot,
            actor.id@ == self.myself.id@,
    {
        self.myself.clone()
    }

    /// The actor's supervising scope.
    #[must_use]
    pub fn scope(&self) -> (scope: ScopeId)
        ensures
            scope == self.scope,
    {
        self.scope
    }

    /// The cooperative shutdown token.
    #[must_use]
    pub fn shutdown_token(&self) -> (token: CancellationToken)
        ensures
            token == (CancellationToken { parent: self.shutdown, own: None }),
    {
        CancellationToken { parent: self.shutdown, own: None }
    }

    /// The escalation token.
    #[must_use]
    pub fn abort_token(&self) -> (token: CancellationToken)
        ensures
            token == (CancellationToken { parent: self.abort, own: None }),
    {
        CancellationToken { parent: self.abort, own: None }
    }

    /// The scope whose shutdown is requested, without waiting.
    pub fn request_scope_shutdown(&self) -> (scope: ScopeId)
        ensures
            scope == self.scope,
    {
        self.scope
    }

    /// The resolved frozen-prefix shutdown policy.
    #[must_use]
    pub fn mailbox_shutdown(&self) -> (policy: MailboxShutdown)
        ensures
            policy == self.mailbox_shutdown,
    {
        self.mailbox_shutdown
    }

    /// The effective readiness mode.
    #[must_use]
    pub fn readiness(&self) -> (readiness: Readiness)
        ensures
            readiness == self.readiness,
    {
        self.readiness
    }

    /// Whether a stop has begun.
    pub fn is_stopping(&self, latches: &LatchTable) -> (stopping: bool)
        ensures
            stopping == self.stopping(latches@),
    {
        self.deferred_init_stop || latches.is_fired(self.local_stop) || latches.is_fired(
            self.shutdown,
        ) || latches.is_fired(self.abort)
    }

    /// Whether new work is turned away.
    pub fn rejects_new_work(&self, latches: &LatchTable) -> (rejects: bool)
        ensures
            rejects == self.turns_away(latches@),
    {
        self.is_stopping(latches) || !self.resources.accepting
    }

    /// Releases this incarnation's readiness gate, unless it is stopping.
    pub fn mark_ready(&self, latches: &mut LatchTable)
        requires
            old(latches).has(self.ready),
        ensures
            final(latches)@ == if self.stopping(old(latches)@) {
                old(latches)@
            } else {
                old(latches)@.update(self.ready.0 as int, true)
            },
    {
        if !self.is_stopping(latches) {
            let _ = latches.fire(self.ready);
        }
    }

    /// Freezes external intake and everything the incarnation owns.
    pub fn freeze_intake(
        &mut self,
        mailbox: &mut MailboxCell<M>,
        latches: &mut LatchTable,
    ) -> (outcome: (MailboxEffects<M>, Vec<Cleanup<M, C, W>>))
        requires
            old(self).wf(*old(latches)),
            old(mailbox)@.wf(),
        ensures
            final(self).wf(*final(latches)),
            final(mailbox)@.wf(),
            final(self).same_besides_resources(*old(self)),
            final(self).resources.events.pulsed == old(self).resources.events.pulsed,
            final(self).resources@ == old(self).resources@.frozen(),
            final(latches)@ == old(self).resources@.frozen_latches(old(latches)@),
            final(mailbox)@ == old(mailbox)@.frozen(old(self).receiver.incarnation),
            outcome.0@ == (EffectsModel::<M> {
                pulse: old(mailbox)@.frozen(old(self).receiver.incarnation) != old(mailbox)@,
                ..no_effects()
            }),
            outcome.1@ == old(self).resources.freeze_steps(old(latches)@),
    {
        let effects = self.receiver.freeze(mailbox);
        let steps = self.resources.freeze(latches);
        proof {
            lemma_cancelled_latches_len(old(self).resources.offloads@, *old(latches));
            assert forall|i: int| 0 <= i < self.resources.offloads@.len() implies (
            #[trigger] self.resources.offloads@[i]).known_to(*latches) by {
                assert(old(self).resources.offloads@[i].known_to(*old(latches)));
            }
        }
        (effects, steps)
    }

    /// Requests a clean self-stop: intake freezes at this call, and what the
    /// incarnation owns is to be destroyed. Stopping again changes nothing.
    pub fn stop(&mut self, mailbox: &mut MailboxCell<M>, latches: &mut LatchTable) -> (outcome: (
        MailboxEffects<M>,
        Vec<Cleanup<M, C, W>>,
    ))
        requires
            old(self).wf(*old(latches)),
            old(mailbox)@.wf(),
        ensures
            final(self).wf(*final(latches)),
            final(mailbox)@.wf(),
            final(self).same_besides_resources(*old(self)),
            final(self).resources.events.pulsed == old(self).resources.events.pulsed,
            final(self).resources@ == old(self).resources@.frozen(),
            final(latches)@ == old(self).resources@.frozen_latches(old(latches)@).update(
                old(self).local_stop.0 as int,
                true,
            ),
            final(mailbox)@ == old(mailbox)@.frozen(old(self).receiver.incarnation),
            outcome.0@ == (EffectsModel::<M> {
                pulse: old(mailbox)@.frozen(old(self).receiver.incarnation) != old(mailbox)@,
                ..no_effects()
            }),
            outcome.1@ == old(self).resources.freeze_steps(old(latches)@),
    {
        let outcome = self.freeze_intake(mailbox, latches);
        let ghost before = *latches;
        let _ = latches.fire(self.local_stop);
        proof {
            assert forall|i: int| 0 <= i < self.resources.offloads@.len() implies (
            #[trigger] self.resources.offloads@[i]).known_to(*latches) by {
                assert(self.resources.offloads@[i].known_to(before));
            }
        }
        outcome
    }

    /// Freezes at an initializer's stop request, but holds its publication
    /// until the initializer returns.
    pub fn defer_stop_until_after_init(
        &mut self,
        mailbox: &mut MailboxCell<M>,
        latches: &mut LatchTable,
    ) -> (outcome: (MailboxEffects<M>, Vec<Cleanup<M, C, W>>))
        requires
            old(self).wf(*old(latches)),
            old(mailbox)@.wf(),
        ensures
            final(self).wf(*final(latches)),
            final(mailbox)@.wf(),
            final(self).deferred_init_stop,
            final(self).resources.events.pulsed == old(self).resources.events.pulsed,
            old(self).deferred_init_stop ==> {
                &&& *final(self) == *old(self)
                &&& final(mailbox)@ == old(mailbox)@
                &&& final(latches)@ == old(latches)@
                &&& outcome.0@ == no_effects::<M>()
                &&& outcome.1@.len() == 0
            },
            !old(self).deferred_init_stop ==> {
                &&& final(self).resources@ == old(self).resources@.frozen()
                &&& *final(self) == (RawContext {
                    deferred_init_stop: true,
                    resources: final(self).resources,
                    ..*old(self)
                })
                &&& final(latches)@ == old(self).resources@.frozen_latches(old(latches)@)
                &&& final(mailbox)@ == old(mailbox)@.frozen(old(self).receiver.incarnation)
                &&& outcome.0@ == (EffectsModel::<M> {
                    pulse: old(mailbox)@.frozen(old(self).receiver.incarnation) != old(mailbox)@,
                    ..no_effects()
                })
                &&& outcome.1@ == old(self).resources.freeze_steps(old(latches)@)
            },
    {
        if self.deferred_init_stop {
            return (MailboxEffects::new(), Vec::new());
        }
        self.deferred_init_stop = true;
        self.freeze_intake(mailbox, latches)
    }

    /// The latches once the initializer returned: readiness comes before the
    /// deferred stop.
    pub open spec fn init_latches(&self, successful: bool, latches: Seq<bool>) -> Seq<bool> {
        let undeferred = RawContext { deferred_init_stop: false, ..*self };
        let gated = if successful && self.readiness is AfterInit && !undeferred.stopping(latches) {
            latches.update(self.ready.0 as int, true)
        } else {
            latches
        };
        if self.deferred_init_stop {
            gated.update(self.local_stop.0 as int, true)
        } else {
            gated
        }
    }

    /// Closes the initializer: a successful one releases its readiness gate,
    /// and then a stop it deferred is published.
    pub fn finish_callback_init(&mut self, successful: bool, latches: &mut LatchTable)
        requires
            old(self).wf(*old(latches)),
        ensures
            final(self).wf(*final(latches)),
            *final(self) == (RawContext { deferred_init_stop: false, ..*old(self) }),
            final(latches)@ == old(self).init_latches(successful, old(latches)@),
    {
        let deferred = self.deferred_init_stop;
        self.deferred_init_stop = false;
        if successful && matches!(self.readiness, Readiness::AfterInit) {
            self.mark_ready(latches);
        }
        if deferred {
            let _ = latches.fire(self.local_stop);
        }
        proof {
            assert forall|i: int| 0 <= i < self.resources.offloads@.len() implies (
            #[trigger] self.resources.offloads@[i]).known_to(*latches) by {
                assert(self.resources.offloads@[i].known_to(*old(latches)));
            }
        }
    }

    /// Queues a continuation ahead of external input.
    pub fn continue_with(&mut self, message: M, latches: &LatchTable) -> (verdict: Result<
        (),
        Rejected<M>,
    >)
        requires
            old(self).wf(*latches),
        ensures
            final(self).wf(*latches),
            final(self).same_besides_resources(*old(self)),
            final(self).resources.events.pulsed == old(self).resources.events.pulsed,
            verdict is Err <==> old(self).turns_away(latches@),
            verdict matches Err(rejected) ==> rejected@ == message && final(self).resources@
                == old(self).resources@,
            verdict is Ok ==> final(self).resources@ == (RawModel {
                continuations: old(self).resources@.continuations.push(message),
                ..old(self).resources@
            }),
    {
        if self.rejects_new_work(latches) {
            return Err(Rejected::new(message));
        }
        self.resources.continuations.push_back(message);
        Ok(())
    }

    /// Arms a timer, destroying the one it replaces.
    fn replace_timer(
        &mut self,
        key: TimerKey,
        message: TimerMessage<M>,
        period: Option<Duration>,
        after: Duration,
        now: Instant,
        cleanup: &mut Vec<Cleanup<M, C, W>>,
    )
        requires
            old(self).resources.wf(),
            old(self).resources@.timers.minted < u64::MAX,
            period is Some <==> message is Interval,
        ensures
            final(self).resources.wf(),
            final(self).same_besides_resources(*old(self)),
            final(self).resources.events.pulsed == old(self).resources.events.pulsed,
            final(self).resources@ == (RawModel {
                timers: old(self).resources@.timers.armed_with(
                    key,
                    message,
                    period,
                    now.later(after),
                ),
                ..old(self).resources@
            }),
            final(cleanup)@ == old(cleanup)@ + discarded_timers::<M, C, W>(
                old(self).resources@.timers.garbage_of(key),
            ),
    {
        let deadline = Deadline::after(now, after).instant();
        let mut garbage: Vec<Garbage<M>> = Vec::new();
        let ghost timers = self.resources.timers@;
        let ghost entry = TimerEntry {
            key,
            deadline,
            arming_order: ArmingOrder((timers.minted + 1) as u64),
            message,
            period,
        };
        let _ = self.resources.timers.replace(key, deadline, message, period, &mut garbage);
        proof {
            lemma_store_is_listed(self.resources.timers);
            if let Some(batch) = self.resources@.batch {
                lemma_armings_after_replace(batch.armings(), timers, entry);
            }
            assert(garbage@ =~= timers.garbage_of(key));
        }
        discard_timers(garbage, cleanup);
    }

    /// Arms or replaces a one-shot keyed timer. Arming orders are never reused;
    /// there must be one left.
    pub fn set_timeout(
        &mut self,
        key: TimerKey,
        message: M,
        after: Duration,
        now: Instant,
        latches: &LatchTable,
        cleanup: &mut Vec<Cleanup<M, C, W>>,
    ) -> (verdict: Result<(), Rejected<(TimerKey, M)>>)
        requires
            old(self).wf(*latches),
            old(self).resources@.timers.minted < u64::MAX,
        ensures
            final(self).wf(*latches),
            final(self).same_besides_resources(*old(self)),
            final(self).resources.events.pulsed == old(self).resources.events.pulsed,
            verdict is Err <==> old(self).turns_away(latches@),
            verdict matches Err(rejected) ==> {
                &&& rejected@ == (key, message)
                &&& final(self).resources@ == old(self).resources@
                &&& final(cleanup)@ == old(cleanup)@
            },
            verdict is Ok ==> {
                let timers = old(self).resources@.timers;
                &&& final(self).resources@ == (RawModel {
                    timers: timers.armed_with(
                        key,
                        TimerMessage::Once(message),
                        None,
                        now.later(after),
                    ),
                    ..old(self).resources@
                })
                &&& final(cleanup)@ == old(cleanup)@ + discarded_timers::<M, C, W>(
                    timers.garbage_of(key),
                )
            },
    {
        if self.rejects_new_work(latches) {
            return Err(Rejected::new((key, message)));
        }
        self.replace_timer(key, TimerMessage::Once(message), None, after, now, cleanup);
        Ok(())
    }

    /// Arms or replaces a keyed interval; a zero period clears the key, any
    /// other takes an arming order, of which one must be left.
    pub fn set_interval(
        &mut self,
        key: TimerKey,
        message: M,
        period: Duration,
        now: Instant,
        latches: &LatchTable,
        cleanup: &mut Vec<Cleanup<M, C, W>>,
    ) -> (verdict: Result<(), Rejected<(TimerKey, M)>>)
        requires
            old(self).wf(*latches),
            period@ != 0 ==> old(self).resources@.timers.minted < u64::MAX,
        ensures
            final(self).wf(*latches),
            final(self).same_besides_resources(*old(self)),
            final(self).resources.events.pulsed == old(self).resources.events.pulsed,
            verdict is Err <==> old(self).turns_away(latches@),
            verdict matches Err(rejected) ==> {
                &&& rejected@ == (key, message)
                &&& final(self).resources@ == old(self).resources@
                &&& final(cleanup)@ == old(cleanup)@
            },
            verdict is Ok && period@ == 0 ==> {
                let timers = old(self).resources@.timers;
                &&& final(self).resources@ == (RawModel {
                    timers: timers.cleared(key),
                    ..old(self).resources@
                })
                &&& final(cleanup)@ == old(cleanup)@ + discarded_timers::<M, C, W>(
                    timers.garbage_of(key) + seq![Garbage::Key(key), Garbage::Message(message)],
                )
            },
            verdict is Ok && period@ != 0 ==> {
                let timers = old(self).resources@.timers;
                &&& final(self).resources@ == (RawModel {
                    timers: timers.armed_with(
                        key,
                        TimerMessage::Interval(message),
                        Some(period),
                        now.later(period),
                    ),
                    ..old(self).resources@
                })
                &&& final(cleanup)@ == old(cleanup)@ + discarded_timers::<M, C, W>(
                    timers.garbage_of(key),
                )
            },
    {
        if self.rejects_new_work(latches) {
            return Err(Rejected::new((key, message)));
        }
        if period.is_zero() {
            let ghost timers = self.resources.timers@;
            let mut garbage: Vec<Garbage<M>> = Vec::new();
            self.resources.timers.clear_and_dispose(key, message, &mut garbage);
            proof {
                lemma_store_is_listed(self.resources.timers);
                if let Some(batch) = self.resources@.batch {
                    lemma_armings_after_clear(batch.armings(), timers, key);
                }
                assert(garbage@ =~= timers.garbage_of(key) + seq![
                    Garbage::Key(key),
                    Garbage::Message(message),
                ]);
            }
            discard_timers(garbage, cleanup);
            return Ok(());
        }
        self.replace_timer(
            key,
            TimerMessage::Interval(message),
            Some(period),
            period,
            now,
            cleanup,
        );
        Ok(())
    }

    /// Retracts a keyed timer, also one that elapsed and was not delivered
    /// yet; reports whether there was one.
    pub fn clear_timer(&mut self, key: &TimerKey, cleanup: &mut Vec<Cleanup<M, C, W>>) -> (cleared:
        bool)
        requires
            old(self).resources.wf(),
        ensures
            final(self).resources.wf(),
            final(self).same_besides_resources(*old(self)),
            final(self).resources.events.pulsed == old(self).resources.events.pulsed,
            cleared == old(self).resources@.timers.has_key(*key),
            final(self).resources@ == (RawModel {
                timers: old(self).resources@.timers.cleared(*key),
                ..old(self).resources@
            }),
            final(cleanup)@ == old(cleanup)@ + discarded_timers::<M, C, W>(
                old(self).resources@.timers.garbage_of(*key),
            ),
    {
        let ghost timers = self.resources.timers@;
        let mut garbage: Vec<Garbage<M>> = Vec::new();
        let cleared = self.resources.timers.remove(key, &mut garbage);
        proof {
            lemma_store_is_listed(self.resources.timers);
            if let Some(batch) = self.resources@.batch {
                lemma_armings_after_clear(batch.armings(), timers, *key);
            }
            assert(garbage@ =~= timers.garbage_of(*key));
        }
        discard_timers(garbage, cleanup);
        cleared
    }
}

/// Cancelling offloads keeps the latches there are.
pub proof fn lemma_cancelled_latches_len<W>(offloads: Seq<OffloadResource<W>>, latches: LatchTable)
    requires
        all_known(offloads, latches),
    ensures
        latches_after_cancelling(offloads, latches@).len() == latches@.len(),
    decreases offloads.len(),
{
    if offloads.len() > 0 {
        let fewer = offloads.drop_last();
        assert forall|i: int| 0 <= i < fewer.len() implies (#[trigger] fewer[i]).known_to(
            latches,
        ) by {
            assert(fewer[i] == offloads[i]);
        }
        lemma_cancelled_latches_len(fewer, latches);
        assert(offloads[offloads.len() - 1].known_to(latches));
    }
}

/// Offloads that stay in the ledger have known latches.
proof fn lemma_kept_are_known<W>(
    offloads: Seq<OffloadResource<W>>,
    keeps: spec_fn(OffloadResource<W>) -> bool,
    latches: LatchTable,
)
    requires
        all_known(offloads, latches),
    ensures
        all_known(offloads.filter(keeps), latches),
    decreases offloads.len(),
{
    reveal(Seq::filter);
    if offloads.len() > 0 {
        let fewer = offloads.drop_last();
        assert forall|i: int| 0 <= i < fewer.len() implies (#[trigger] fewer[i]).known_to(
            latches,
        ) by {
            assert(fewer[i] == offloads[i]);
        }
        lemma_kept_are_known(fewer, keeps, latches);
        let kept = fewer.filter(keeps);
        let last = offloads[offloads.len() - 1];
        assert(last.known_to(latches));
        assert forall|i: int| 0 <= i < offloads.filter(keeps).len() implies (
        #[trigger] offloads.filter(keeps)[i]).known_to(latches) by {
            if i < kept.len() {
                assert(offloads.filter(keeps)[i] == kept[i]);
            }
        }
    }
}

/// How an offload's work is to run.
#[derive(Clone, Copy, Debug, PartialEq, Eq)]
pub struct OffloadPlan {
    /// Cancels the work.
    pub token: CancellationToken,
    /// When its budget ends; `None` never comes.
    pub expires_at: Option<Instant>,
    /// Fires when cancellation is requested.
    pub cancellation: LatchId,
    /// Fires when the work has finished.
    pub finished: LatchId,
}

/// What offloaded work came to.
#[derive(Debug)]
pub enum OffloadOutcome<C> {
    /// It was cancelled first.
    Cancelled,
    /// It returned, or its budget ended: this builds the message.
    Completed(C),
    /// It panicked.
    Panicked(PanicPayload),
}

impl<M, C, W> RawModel<M, C, W> {
    /// What is owned once an offload with no time was turned down: its
    /// completion is queued.
    pub open spec fn with_elapsed(
        self,
        cancellation: LatchId,
        finished: LatchId,
        make_message: C,
    ) -> RawModel<M, C, W> {
        RawModel {
            events: self.events.push(QueuedEvent { cancellation, make_message }),
            offloads: self.offloads.push(
                OffloadResource { cancellation, finished, state: None, task: None },
            ),
            ..self
        }
    }

    /// What is owned once an offload was started: its work and its task.
    pub open spec fn with_started(
        self,
        cancellation: LatchId,
        finished: LatchId,
        started: (W, u64),
    ) -> RawModel<M, C, W> {
        RawModel {
            offloads: self.offloads.push(
                OffloadResource {
                    cancellation,
                    finished,
                    state: Some(
                        SharedOffloadState {
                            future: Some(started.0),
                            polling: false,
                            cancelled: false,
                            finished,
                            published: false,
                        },
                    ),
                    task: Some(started.1),
                },
            ),
            ..self
        }
    }
}

/// Whether an offload was started: what `before` owned, less what may be
/// forgotten, is then `owned` with the offload's resource and, for a zero
/// budget, its completion. `request` is work, continuation, budget and clock.
pub open spec fn offload_started<
    M,
    C,
    W,
    P,
    K,
    E: Fn(K, DeadlineElapsed) -> C,
    S: Fn(P, K, OffloadPlan) -> (W, u64),
>(
    before: RawContext<M, C, W>,
    owned: RawModel<M, C, W>,
    request: (P, K, DeadlineBudget, Instant),
    latches: (Seq<bool>, Seq<bool>),
    unattempted: Option<P>,
    elapsed: E,
    spawn: S,
) -> bool {
    let (work, continuation, deadline, now) = request;
    let kept = before.resources@.reclaimed(latches.0);
    let cancellation = LatchId(latches.0.len() as usize);
    let finished = LatchId((latches.0.len() + 1) as usize);
    let plan = OffloadPlan {
        token: CancellationToken { parent: before.shutdown, own: Some(cancellation) },
        expires_at: now.later(deadline.width),
        cancellation,
        finished,
    };
    &&& latches.1 == latches.0.push(false).push(deadline.width@ == 0)
    &&& unattempted == if deadline.width@ == 0 {
        Some(work)
    } else {
        None
    }
    &&& deadline.width@ == 0 ==> exists|make_message: C| #[trigger]
        call_ensures(elapsed, (continuation, DeadlineElapsed), make_message) && owned == kept.with_elapsed(
            cancellation,
            finished,
            make_message,
        )
    &&& deadline.width@ != 0 ==> exists|started: (W, u64)| #[trigger]
        call_ensures(spawn, (work, continuation, plan), started) && owned == kept.with_started(
            cancellation,
            finished,
            started,
        )
}

/// An offload with no time is started by queueing its completion.
proof fn lemma_elapsed_is_started<
    M,
    C,
    W,
    P,
    K,
    E: Fn(K, DeadlineElapsed) -> C,
    S: Fn(P, K, OffloadPlan) -> (W, u64),
>(
    before: RawContext<M, C, W>,
    owned: RawModel<M, C, W>,
    request: (P, K, DeadlineBudget, Instant),
    latches: (Seq<bool>, Seq<bool>),
    elapsed: E,
    spawn: S,
    make_message: C,
)
    requires
        request.2.width@ == 0,
        latches.1 == latches.0.push(false).push(true),
        call_ensures(elapsed, (request.1, DeadlineElapsed), make_message),
        owned == before.resources@.reclaimed(latches.0).with_elapsed(
            LatchId(latches.0.len() as usize),
            LatchId((latches.0.len() + 1) as usize),
            make_message,
        ),
    ensures
        offload_started(before, owned, request, latches, Some(request.0), elapsed, spawn),
{
}

/// What a receive does next.
#[derive(Debug)]
pub enum RecvStep<M, C> {
    /// What selection, or draining, came to. `Idle` waits for an event or the
    /// next timer; `Again` runs the cleanup and receives again.
    Ready(Found<M, C>),
    /// Wait until shutdown is requested.
    AwaitShutdown,
    /// No more messages.
    Ended,
}

impl<M, C, W> RawContext<M, C, W> {
    /// Starts offloaded work under one deadline. Work is attempted only where
    /// the budget is not zero: then `spawn` starts it; else it is handed back
    /// to be destroyed, and its continuation, told by `elapsed` that the deadline
    /// elapsed, travels the ordinary completion path.
    pub fn start_offload<P, K, E: Fn(K, DeadlineElapsed) -> C, S: Fn(P, K, OffloadPlan) -> (W, u64)>(
        &mut self,
        work: P,
        continuation: K,
        deadline: DeadlineBudget,
        now: Instant,
        latches: &mut LatchTable,
        elapsed: &E,
        spawn: &S,
    ) -> (verdict: Result<(Guard, Option<P>), Rejected<(P, K)>>)
        requires
            old(self).wf(*old(latches)),
            forall|continuation: K, end: DeadlineElapsed| #[trigger]
                call_requires(*elapsed, (continuation, end)),
            forall|work: P, continuation: K, plan: OffloadPlan| #[trigger]
                call_requires(*spawn, (work, continuation, plan)),
        ensures
            final(self).wf(*final(latches)),
            final(self).same_besides_resources(*old(self)),
            final(self).resources.events.pulsed == (old(self).resources.events.pulsed || (
            verdict is Ok && deadline.width@ == 0)),
            verdict is Err <==> old(self).turns_away(old(latches)@),
            verdict matches Err(rejected) ==> {
                &&& rejected@ == (work, continuation)
                &&& final(self).resources@ == old(self).resources@
                &&& final(latches)@ == old(latches)@
            },
            verdict matches Ok((guard, unattempted)) ==> {
                &&& guard == (Guard {
                    cancellation: LatchId(old(latches)@.len() as usize),
                    finished: LatchId((old(latches)@.len() + 1) as usize),
                    armed: true,
                })
                &&& offload_started(
                    *old(self),
                    final(self).resources@,
                    (work, continuation, deadline, now),
                    (old(latches)@, final(latches)@),
                    unattempted,
                    *elapsed,
                    *spawn,
                )
            },
    {
        if self.rejects_new_work(latches) {
            return Err(Rejected::new((work, continuation)));
        }
        let ghost before = *latches;
        self.resources.reclaim_finished(latches);
        let ghost owned = self.resources@;
        proof {
            lemma_kept_are_known(
                old(self).resources.offloads@,
                |offload: OffloadResource<W>| !offload.retirable(before@),
                before,
            );
        }
        let cancellation = latches.create();
        let finished = latches.create();
        let guard = Guard { cancellation, finished, armed: true };
        if deadline.is_zero() {
            let make_message = elapsed(continuation, DeadlineElapsed);
            self.resources.events.push(QueuedEvent { cancellation, make_message });
            let _ = latches.fire(finished);
            self.resources.offloads.push(
                OffloadResource { cancellation, finished, state: None, task: None },
            );
            proof {
                assert(latches@ =~= before@.push(false).push(true));
                lemma_ledger_grows(owned.offloads, self.resources.offloads@, before, *latches);
                assert(call_ensures(*elapsed, (continuation, DeadlineElapsed), make_message));
                assert(self.resources@ =~= owned.with_elapsed(
                    cancellation,
                    finished,
                    make_message,
                ));
                lemma_elapsed_is_started(
                    *old(self),
                    self.resources@,
                    (work, continuation, deadline, now),
                    (before@, latches@),
                    *elapsed,
                    *spawn,
                    make_message,
                );
            }
            return Ok((guard, Some(work)));
        }
        let plan = OffloadPlan {
            token: CancellationToken { parent: self.shutdown, own: Some(cancellation) },
            expires_at: Deadline::after(now, deadline.duration()).instant(),
            cancellation,
            finished,
        };
        let started = spawn(work, continuation, plan);
        let ghost begun = started;
        let (future, task) = started;
        self.resources.offloads.push(
            OffloadResource {
                cancellation,
                finished,
                state: Some(SharedOffloadState::new(future, finished)),
                task: Some(task),
            },
        );
        proof {
            lemma_ledger_grows(owned.offloads, self.resources.offloads@, before, *latches);
            assert(call_ensures(*spawn, (work, continuation, plan), begun));
        }
        Ok((guard, None))
    }

    /// Starts offloaded work under a lease that cancels it when dropped.
    pub fn offload_scoped<P, K, E: Fn(K, DeadlineElapsed) -> C, S: Fn(P, K, OffloadPlan) -> (W, u64)>(
        &mut self,
        work: P,
        continuation: K,
        deadline: DeadlineBudget,
        now: Instant,
        latches: &mut LatchTable,
        elapsed: &E,
        spawn: &S,
    ) -> (verdict: Result<(Guard, Option<P>), Rejected<(P, K)>>)
        requires
            old(self).wf(*old(latches)),
            forall|continuation: K, end: DeadlineElapsed| #[trigger]
                call_requires(*elapsed, (continuation, end)),
            forall|work: P, continuation: K, plan: OffloadPlan| #[trigger]
                call_requires(*spawn, (work, continuation, plan)),
        ensures
            final(self).wf(*final(latches)),
            final(self).same_besides_resources(*old(self)),
            final(self).resources.events.pulsed == (old(self).resources.events.pulsed || (
            verdict is Ok && deadline.width@ == 0)),
            verdict is Err <==> old(self).turns_away(old(latches)@),
            verdict matches Err(rejected) ==> {
                &&& rejected@ == (work, continuation)
                &&& final(self).resources@ == old(self).resources@
                &&& final(latches)@ == old(latches)@
            },
            verdict matches Ok((guard, unattempted)) ==> {
                &&& guard == (Guard {
                    cancellation: LatchId(old(latches)@.len() as usize),
                    finished: LatchId((old(latches)@.len() + 1) as usize),
                    armed: true,
                })
                &&& offload_started(
                    *old(self),
                    final(self).resources@,
                    (work, continuation, deadline, now),
                    (old(latches)@, final(latches)@),
                    unattempted,
                    *elapsed,
                    *spawn,
                )
            },
    {
        self.start_offload(work, continuation, deadline, now, latches, elapsed, spawn)
    }

    /// Starts offloaded work nobody holds a lease for.
    pub fn offload<P, K, E: Fn(K, DeadlineElapsed) -> C, S: Fn(P, K, OffloadPlan) -> (W, u64)>(
        &mut self,
        work: P,
        continuation: K,
        deadline: DeadlineBudget,
        now: Instant,
        latches: &mut LatchTable,
        elapsed: &E,
        spawn: &S,
    ) -> (verdict: Result<Option<P>, Rejected<(P, K)>>)
        requires
            old(self).wf(*old(latches)),
            forall|continuation: K, end: DeadlineElapsed| #[trigger]
                call_requires(*elapsed, (continuation, end)),
            forall|work: P, continuation: K, plan: OffloadPlan| #[trigger]
                call_requires(*spawn, (work, continuation, plan)),
        ensures
            final(self).wf(*final(latches)),
            final(self).same_besides_resources(*old(self)),
            final(self).resources.events.pulsed == (old(self).resources.events.pulsed || (
            verdict is Ok && deadline.width@ == 0)),
            verdict is Err <==> old(self).turns_away(old(latches)@),
            verdict matches Err(rejected) ==> {
                &&& rejected@ == (work, continuation)
                &&& final(self).resources@ == old(self).resources@
                &&& final(latches)@ == old(latches)@
            },
            verdict matches Ok(unattempted) ==> offload_started(
                *old(self),
                final(self).resources@,
                (work, continuation, deadline, now),
                (old(latches)@, final(latches)@),
                unattempted,
                *elapsed,
                *spawn,
            ),
    {
        match self.start_offload(work, continuation, deadline, now, latches, elapsed, spawn) {
            Ok((guard, unattempted)) => {
                let _ = guard.detach();
                Ok(unattempted)
            },
            Err(rejected) => Err(rejected),
        }
    }

    /// Takes in what offloaded work came to: a completion is queued, a panic
    /// retained unless one already is, and cancelled work leaves nothing.
    pub fn settle_offload(&mut self, cancellation: LatchId, outcome: OffloadOutcome<C>) -> (rejected:
        Option<PanicPayload>)
        requires
            old(self).resources.wf(),
        ensures
            final(self).resources.wf(),
            final(self).same_besides_resources(*old(self)),
            match outcome {
                OffloadOutcome::Cancelled => rejected is None && final(self).resources == old(
                    self,
                ).resources,
                OffloadOutcome::Completed(make_message) => rejected is None && final(
                    self).resources@ == (RawModel {
                    events: old(self).resources@.events.push(
                        QueuedEvent { cancellation, make_message },
                    ),
                    ..old(self).resources@
                }) && final(self).resources.events.pulsed,
                OffloadOutcome::Panicked(payload) => {
                    &&& final(self).resources@ == (RawModel {
                        panic: first_of(old(self).resources@.panic, Some(payload)),
                        ..old(self).resources@
                    })
                    &&& rejected == if old(self).resources@.panic is Some {
                        Some(payload)
                    } else {
                        None
                    }
                    &&& final(self).resources.events.pulsed
                },
            },
    {
        match outcome {
            OffloadOutcome::Cancelled => None,
            OffloadOutcome::Completed(make_message) => {
                self.resources.events.push(QueuedEvent { cancellation, make_message });
                None
            },
            OffloadOutcome::Panicked(payload) => self.resources.record(payload),
        }
    }

    /// Starts blocking work whose thread may observe cancellation. There is no
    /// stopping gate: teardown may still need it, and the ledger does not
    /// track it.
    pub fn run_blocking<O, S: Fn(CancellationToken) -> O>(
        &self,
        latches: &mut LatchTable,
        spawn: &S,
    ) -> (blocking: Blocking<O>)
        requires
            forall|token: CancellationToken| #[trigger] call_requires(*spawn, (token,)),
        ensures
            final(latches)@ == old(latches)@.push(false),
            blocking.cancellation.0 == old(latches)@.len(),
            !blocking.completed,
            call_ensures(
                *spawn,
                (CancellationToken {
                    parent: self.shutdown,
                    own: Some(blocking.cancellation),
                },),
                blocking.future,
            ),
    {
        let cancellation = latches.create();
        let token = CancellationToken { parent: self.shutdown, own: Some(cancellation) };
        let future = spawn(token);
        Blocking { future, cancellation, completed: false }
    }
}

/// Adding an offload with fresh latches keeps every latch known.
proof fn lemma_ledger_grows<W>(
    before: Seq<OffloadResource<W>>,
    after: Seq<OffloadResource<W>>,
    old_latches: LatchTable,
    latches: LatchTable,
)
    requires
        all_known(before, old_latches),
        latches@.len() == old_latches@.len() + 2,
        after.len() == before.len() + 1,
        after.drop_last() =~= before,
        after.last().known_to(latches),
    ensures
        all_known(after, latches),
{
    assert forall|i: int| 0 <= i < after.len() implies (#[trigger] after[i]).known_to(latches) by {
        if i < before.len() {
            assert(after.drop_last()[i] == before[i]);
            assert(before[i].known_to(old_latches));
        }
    }
}

impl<M, C, W> RawContext<M, C, W> {
    /// Whether freezing now leaves something to be done first.
    pub open spec fn freeze_is_work(&self, mailbox: MailboxModel<M>, latches: Seq<bool>) -> bool {
        ||| self.resources.freeze_steps(latches).len() > 0
        ||| mailbox.frozen(self.receiver.incarnation) != mailbox
    }

    /// Freezes and reports whether something is to be done first.
    fn quiesce(
        &mut self,
        mailbox: &mut MailboxCell<M>,
        latches: &mut LatchTable,
        cleanup: &mut Vec<Cleanup<M, C, W>>,
    ) -> (outcome: (bool, MailboxEffects<M>))
        requires
            old(self).wf(*old(latches)),
            old(mailbox)@.wf(),
            old(cleanup)@.len() == 0,
        ensures
            final(self).wf(*final(latches)),
            final(mailbox)@.wf(),
            final(self).same_besides_resources(*old(self)),
            final(self).resources.events.pulsed == old(self).resources.events.pulsed,
            final(self).resources@ == old(self).resources@.frozen(),
            final(latches)@ == old(self).resources@.frozen_latches(old(latches)@),
            final(mailbox)@ == old(mailbox)@.frozen(old(self).receiver.incarnation),
            final(cleanup)@ == old(self).resources.freeze_steps(old(latches)@),
            outcome.0 == old(self).freeze_is_work(old(mailbox)@, old(latches)@),
            outcome.1@ == (EffectsModel::<M> {
                pulse: old(mailbox)@.frozen(old(self).receiver.incarnation) != old(mailbox)@,
                ..no_effects()
            }),
    {
        let (effects, steps) = self.freeze_intake(mailbox, latches);
        *cleanup = steps;
        (cleanup.len() > 0 || !effects.is_empty(), effects)
    }

    /// Receives one ready input without waiting. Once a stop has begun it
    /// freezes, resumes a retained panic, and then drains what was accepted;
    /// before, it selects.
    pub fn try_recv(
        &mut self,
        mailbox: &mut MailboxCell<M>,
        latches: &mut LatchTable,
        now: Instant,
        cleanup: &mut Vec<Cleanup<M, C, W>>,
    ) -> (outcome: (Found<M, C>, MailboxEffects<M>))
        requires
            old(self).wf(*old(latches)),
            old(mailbox)@.wf(),
            old(mailbox)@.accepted < u64::MAX,
            old(cleanup)@.len() == 0,
        ensures
            final(self).wf(*final(latches)),
            final(mailbox)@.wf(),
            final(self).same_besides_resources(*old(self)),
            final(self).resources.events.pulsed == old(self).resources.events.pulsed,
            !old(self).stopping(old(latches)@) ==> selected(
                *old(self),
                *final(self),
                (old(mailbox)@, final(mailbox)@),
                (old(latches)@, final(latches)@),
                now,
                (outcome.0, outcome.1@),
                final(cleanup)@,
            ),
            old(self).stopping(old(latches)@) ==> {
                let frozen = old(self).resources@.frozen();
                let incarnation = old(self).receiver.incarnation;
                let still = old(mailbox)@.frozen(incarnation);
                let mode = ReceiveMode::Drain;
                &&& final(latches)@ == old(self).resources@.frozen_latches(old(latches)@)
                &&& final(cleanup)@ == old(self).resources.freeze_steps(old(latches)@)
                &&& if old(self).freeze_is_work(old(mailbox)@, old(latches)@) {
                    &&& outcome.0 == Found::<M, C>::Again
                    &&& final(self).resources@ == frozen
                    &&& final(mailbox)@ == still
                    &&& outcome.1@ == (EffectsModel::<M> {
                        pulse: still != old(mailbox)@,
                        ..no_effects()
                    })
                } else if frozen.panic is Some {
                    &&& outcome.0 == Found::<M, C>::Resume(frozen.panic->Some_0)
                    &&& final(self).resources@ == (RawModel { panic: None, ..frozen })
                    &&& final(mailbox)@ == still
                    &&& outcome.1@ == no_effects::<M>()
                } else {
                    &&& final(self).resources@ == frozen
                    &&& final(mailbox)@ == still.after_receive(incarnation, mode)
                    &&& outcome.1@ == still.receive_effects(incarnation, mode)
                    &&& outcome.0 == match still.received(incarnation, mode) {
                        Some(envelope) => Found::<M, C>::Message(envelope.message),
                        None => Found::<M, C>::Idle,
                    }
                }
            },
    {
        if self.is_stopping(latches) {
            let (work, effects) = self.quiesce(mailbox, latches, cleanup);
            if work {
                return (Found::Again, effects);
            }
            if let Some(payload) = self.resources.resume_pending_panic() {
                return (Found::Resume(payload), effects);
            }
            proof {
                assert(self.resources@ =~= old(self).resources@.frozen());
            }
            let (message, effects) = self.receiver.try_recv(mailbox);
            match message {
                Some(message) => (Found::Message(message), effects),
                None => (Found::Idle, effects),
            }
        } else {
            self.select(mailbox, latches, now, cleanup)
        }
    }

    /// Selects the next input of a live incarnation.
    fn select(
        &mut self,
        mailbox: &mut MailboxCell<M>,
        latches: &LatchTable,
        now: Instant,
        cleanup: &mut Vec<Cleanup<M, C, W>>,
    ) -> (outcome: (Found<M, C>, MailboxEffects<M>))
        requires
            old(self).wf(*latches),
            old(mailbox)@.wf(),
            old(mailbox)@.accepted < u64::MAX,
            old(cleanup)@.len() == 0,
        ensures
            final(self).wf(*latches),
            final(mailbox)@.wf(),
            final(self).same_besides_resources(*old(self)),
            final(self).resources.events.pulsed == old(self).resources.events.pulsed,
            selected(
                *old(self),
                *final(self),
                (old(mailbox)@, final(mailbox)@),
                (latches@, latches@),
                now,
                (outcome.0, outcome.1@),
                final(cleanup)@,
            ),
    {
        let incarnation = self.receiver.incarnation;
        let outcome = self.resources.select_ready(
            mailbox,
            incarnation,
            latches,
            now,
            cleanup,
        );
        proof {
            lemma_kept_are_known(
                old(self).resources.offloads@,
                |offload: OffloadResource<W>| !offload.retirable(latches@),
                *latches,
            );
            lemma_selection_keeps_offloads(
                old(self).resources@.reclaimed(latches@),
                old(mailbox)@,
                incarnation,
                latches@,
                now,
            );
        }
        outcome
    }

    /// Receives the next input, biased toward shutdown. The actor's own stop
    /// ends the loop only once its supervisor has requested shutdown.
    pub fn recv(
        &mut self,
        mailbox: &mut MailboxCell<M>,
        latches: &mut LatchTable,
        now: Instant,
        cleanup: &mut Vec<Cleanup<M, C, W>>,
    ) -> (outcome: (RecvStep<M, C>, MailboxEffects<M>))
        requires
            old(self).wf(*old(latches)),
            old(mailbox)@.wf(),
            old(mailbox)@.accepted < u64::MAX,
            old(cleanup)@.len() == 0,
        ensures
            final(self).wf(*final(latches)),
            final(mailbox)@.wf(),
            final(self).same_besides_resources(*old(self)),
            final(self).resources.events.pulsed == old(self).resources.events.pulsed,
            ({
                let local = is_set(old(latches)@, old(self).local_stop);
                let asked = is_set(old(latches)@, old(self).shutdown);
                let frozen = old(self).resources@.frozen();
                let still = old(mailbox)@.frozen(old(self).receiver.incarnation);
                if !local && !asked {
                    outcome.0 matches RecvStep::Ready(found) && selected(
                        *old(self),
                        *final(self),
                        (old(mailbox)@, final(mailbox)@),
                        (old(latches)@, final(latches)@),
                        now,
                        (found, outcome.1@),
                        final(cleanup)@,
                    )
                } else {
                    let frozen_latches = old(self).resources@.frozen_latches(old(latches)@);
                    &&& final(latches)@ == frozen_latches
                    &&& final(mailbox)@ == still
                    &&& final(cleanup)@ == old(self).resources.freeze_steps(old(latches)@)
                    &&& outcome.1@ == (EffectsModel::<M> {
                        pulse: still != old(mailbox)@,
                        ..no_effects()
                    })
                    &&& if old(self).freeze_is_work(old(mailbox)@, old(latches)@) {
                        &&& outcome.0 == RecvStep::Ready(Found::<M, C>::Again)
                        &&& final(self).resources@ == frozen
                    } else if local && !is_set(frozen_latches, old(self).shutdown) {
                        &&& outcome.0 == RecvStep::<M, C>::AwaitShutdown
                        &&& final(self).resources@ == frozen
                    } else {
                        &&& final(self).resources@ == (RawModel { panic: None, ..frozen })
                        &&& outcome.0 == match frozen.panic {
                            Some(payload) => RecvStep::Ready(Found::<M, C>::Resume(payload)),
                            None => RecvStep::<M, C>::Ended,
                        }
                    }
                }
            }),
    {
        let local = latches.is_fired(self.local_stop);
        if !local && !latches.is_fired(self.shutdown) {
            let (found, effects) = self.select(
                mailbox,
                latches,
                now,
                cleanup,
            );
            return (RecvStep::Ready(found), effects);
        }
        let (work, effects) = self.quiesce(mailbox, latches, cleanup);
        if work {
            return (RecvStep::Ready(Found::Again), effects);
        }
        if local && !latches.is_fired(self.shutdown) {
            return (RecvStep::AwaitShutdown, effects);
        }
        match self.resources.resume_pending_panic() {
            Some(payload) => (RecvStep::Ready(Found::Resume(payload)), effects),
            None => (RecvStep::Ended, effects),
        }
    }

    /// Prepares to wait for an event: finished offloads are forgotten, and the
    /// soonest deadline still to fire bounds the wait.
    pub fn wait_for_event(&mut self, latches: &LatchTable) -> (deadline: Option<Instant>)
        requires
            old(self).wf(*latches),
        ensures
            final(self).wf(*latches),
            final(self).same_besides_resources(*old(self)),
            final(self).resources.events.pulsed == old(self).resources.events.pulsed,
            final(self).resources@ == old(self).resources@.reclaimed(latches@),
            deadline is None <==> old(self).resources@.timers.armed =~= Set::<Armed>::empty(),
            deadline matches Some(at) ==> old(self).resources@.timers.soonest(at),
    {
        self.resources.reclaim_finished(latches);
        proof {
            lemma_kept_are_known(
                old(self).resources.offloads@,
                |offload: OffloadResource<W>| !offload.retirable(latches@),
                *latches,
            );
        }
        self.next_timer_deadline()
    }

    /// When a waiting receive wakes by itself: the soonest deadline still to
    /// fire.
    pub fn next_timer_deadline(&self) -> (next: Option<Instant>)
        requires
            self.resources.wf(),
        ensures
            next is None <==> self.resources@.timers.armed =~= Set::<Armed>::empty(),
            next matches Some(at) ==> self.resources@.timers.soonest(at),
    {
        self.resources.timers.next_deadline()
    }
}

/// Whether `after` and the rest are what one selection makes of `before`.
pub open spec fn selected<M, C, W>(
    before: RawContext<M, C, W>,
    after: RawContext<M, C, W>,
    mailbox: (MailboxModel<M>, MailboxModel<M>),
    latches: (Seq<bool>, Seq<bool>),
    now: Instant,
    outcome: (Found<M, C>, EffectsModel<M>),
    cleanup: Seq<Cleanup<M, C, W>>,
) -> bool {
    let turn = before.resources@.selects(
        mailbox.0,
        before.receiver.incarnation,
        latches.0,
        now,
    );
    &&& latches.1 == latches.0
    &&& after.resources@ == turn.owned
    &&& mailbox.1 == turn.mailbox
    &&& outcome == (turn.end.found(), turn.effects)
    &&& cleanup == turn.cleanup
    &&& outcome.0 matches Found::Tick(order) ==> after.resources@.ticks(order)
}

/// Selecting starts and forgets no offload.
proof fn lemma_selection_keeps_offloads<M, C, W>(
    owned: RawModel<M, C, W>,
    mailbox: MailboxModel<M>,
    incarnation: Incarnation,
    latches: Seq<bool>,
    now: Instant,
)
    ensures
        owned.selection(mailbox, incarnation, latches, now).owned.offloads == owned.offloads,
{
}

} // verus!
