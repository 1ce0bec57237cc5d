use shelterwood::identity::{ChildId, Incarnation, Membership};
use shelterwood::mailbox::cell::MailboxCell;
use shelterwood::mailbox::effects::MailboxEffects;
use shelterwood::mailbox::handle::{ActorRef, MemberCell};
use shelterwood::mailbox::operation::{WakerEffect, WakerId};
use shelterwood::mailbox::SendErrorKind;
use shelterwood::policy::{Capacity, MailboxShutdown, Readiness, ResolvedMailbox};
use shelterwood::poll::Poll;
use shelterwood::raw::context::{
    OffloadOutcome, RawContext, RawRunContext, RecvStep, Rejected, ScopeId,
};
use shelterwood::raw::definition::{
    DefinitionSource, RawDef, RawIncarnationOwner, RawOnceDef, RawSpawn,
};
use shelterwood::raw::disposal::{Caught, PanicPayload, PanicSlot, UnwindPanics};
use shelterwood::raw::latch::{LatchId, LatchTable};
use shelterwood::raw::offload::{
    Blocking, CancelStep, DeadlineElapsed, Guard, OffloadPoll, OffloadResource,
    SharedOffloadState,
};
use shelterwood::raw::resources::{
    Cleanup, DisposingQueue, EventQueue, JoinOutcome, QueuedEvent, RawResources,
};
use shelterwood::raw::select::{Found, Ready};
use shelterwood::raw::timers::{ArmingOrder, Garbage, TimerKey, TimerMessage};
use shelterwood::time::{DeadlineBudget, Duration, Instant};

const SLOT: u64 = 6;
const SENDER: WakerId = WakerId(40);

type Step = Cleanup<u8, u8, &'static str>;
type Resources = RawResources<u8, u8, &'static str>;

fn key(value: u64) -> TimerKey {
    TimerKey { hash: value % 3, kind: 1, value }
}

fn incarnation() -> Incarnation {
    Incarnation {
        membership: Membership { lineage: 1, generation: 1 },
        ordinal: 1,
    }
}

/// A live incarnation with a bound mailbox, and the runtime around it: `raised` says which
/// destructors panic, `hostile` which wakers do.
struct Fixture {
    context: RawContext<u8, u8, &'static str>,
    actor: ActorRef<u8>,
    mailbox: MailboxCell<u8>,
    latches: LatchTable,
    shutdown: LatchId,
    abort: LatchId,
    now: Instant,
    raised: fn(&Step) -> Option<PanicPayload>,
    hostile: Option<(WakerId, PanicPayload)>,
    destroyed: usize,
}

fn harmless(_step: &Step) -> Option<PanicPayload> {
    None
}

impl Fixture {
    fn new() -> Fixture {
        Fixture::with(Readiness::Immediate, MailboxShutdown::Drain)
    }

    fn with(readiness: Readiness, mailbox_shutdown: MailboxShutdown) -> Fixture {
        let id = ChildId::new("raw-actor".to_string());
        let member = MemberCell::new(SLOT, id.clone(), incarnation().membership);
        let actor = ActorRef::new(&member);
        let mut mailbox = MailboxCell::new(id.clone(), SLOT);
        let token = mailbox.configure(ResolvedMailbox::Queue(
            Capacity::new(64).expect("a positive capacity"),
        ));
        mailbox.bind(token, incarnation());
        let mut latches = LatchTable::new();
        let shutdown = latches.create();
        let abort = latches.create();
        let ready = latches.create();
        let local_stop = latches.create();
        let context = RawContext::new(
            RawRunContext {
                id,
                incarnation: incarnation(),
                scope: ScopeId(3),
                shutdown,
                abort,
                ready,
                local_stop,
                mailbox_shutdown,
            },
            actor.clone(),
            readiness,
        );
        Fixture {
            context,
            actor,
            mailbox,
            latches,
            shutdown,
            abort,
            now: Instant::from_nanos(1_000),
            raised: harmless,
            hostile: None,
            destroyed: 0,
        }
    }

    fn try_send(&mut self, message: u8) -> Result<(), SendErrorKind> {
        match self.actor.try_send(&mut self.mailbox, message).0 {
            Ok(_) => Ok(()),
            Err(error) => Err(error.kind),
        }
    }

    fn run(&mut self, cleanup: Vec<Step>) {
        for step in cleanup {
            self.destroyed += 1;
            let raised = (self.raised)(&step);
            self.context.resources.dispose(raised);
        }
    }

    fn flush(&self, effects: &MailboxEffects<u8>) -> Result<(), PanicPayload> {
        if let Some((waker, payload)) = self.hostile {
            if effects.wakers.contains(&WakerEffect::Wake(waker)) {
                return Err(payload);
            }
        }
        Ok(())
    }

    fn try_recv(&mut self) -> Result<Option<u8>, PanicPayload> {
        loop {
            let mut cleanup = Vec::new();
            let (found, effects) = self.context.try_recv(
                &mut self.mailbox,
                &mut self.latches,
                self.now,
                &mut cleanup,
            );
            self.run(cleanup);
            self.flush(&effects)?;
            let (ready, _doomed) = self.context.resources.next_ready(
                found,
                self.now,
                &|message: &u8| *message,
                &|completion: u8| completion,
            );
            match ready {
                Ready::Message(message) => return Ok(Some(message)),
                Ready::Idle => return Ok(None),
                Ready::Resume(payload) => return Err(payload),
                Ready::Again => {}
            }
        }
    }

    fn recv(&mut self) -> RecvStep<u8, u8> {
        let mut cleanup = Vec::new();
        let (step, _effects) = self.context.recv(
            &mut self.mailbox,
            &mut self.latches,
            self.now,
            &mut cleanup,
        );
        self.run(cleanup);
        step
    }

    fn set_timeout(&mut self, key: TimerKey, message: u8, after: Duration) -> bool {
        let mut cleanup = Vec::new();
        let armed = self
            .context
            .set_timeout(key, message, after, self.now, &self.latches, &mut cleanup)
            .is_ok();
        self.run(cleanup);
        armed
    }

    fn clear_timer(&mut self, key: TimerKey) -> bool {
        let mut cleanup = Vec::new();
        let cleared = self.context.clear_timer(&key, &mut cleanup);
        self.run(cleanup);
        cleared
    }

    fn arm_now(&mut self, key: TimerKey, message: u8) -> ArmingOrder {
        let mut garbage = Vec::new();
        self.context
            .resources
            .timers
            .replace(key, Some(self.now), TimerMessage::Once(message), None, &mut garbage)
            .expect("an arming order is left")
    }

    fn queue_event(&mut self, message: u8) -> LatchId {
        let cancellation = self.latches.create();
        self.context
            .resources
            .events
            .push(QueuedEvent { cancellation, make_message: message });
        cancellation
    }
}

fn marker(value: usize) -> QueuedEvent<usize> {
    QueuedEvent { cancellation: LatchId(0), make_message: value }
}

fn drain_to_the_watermark() {
    let mut queue = EventQueue::new();
    queue.push(marker(1));
    queue.push(marker(2));
    let mut watermark = queue.watermark();
    queue.push(marker(3));

    assert_eq!(
        queue.pop_through(&mut watermark).expect("first is covered").make_message,
        1
    );
    assert_eq!(
        queue.pop_through(&mut watermark).expect("second is covered").make_message,
        2
    );
    assert!(queue.pop_through(&mut watermark).is_none());
    assert_eq!(
        queue.pop().expect("post-watermark event remains queued").make_message,
        3
    );
}

#[test]
fn raw_timer_watermark_drains_exactly_the_preexisting_fifo_prefix() {
    drain_to_the_watermark();
}

#[test]
fn tests_timer_watermark_drains_exactly_the_preexisting_fifo_prefix() {
    drain_to_the_watermark();
}

#[test]
fn event_visibility_precedes_its_signal() {
    let mut queue = EventQueue::new();
    assert!(!queue.take_pulse());
    queue.push(marker(7));
    let mut watermark = queue.watermark();
    assert_eq!(watermark, 1);
    assert_eq!(
        queue
            .pop_through(&mut watermark)
            .expect("inserted event is visible before its signal")
            .make_message,
        7
    );
    assert!(queue.take_pulse(), "the wakeup is not lost");
}

fn exhaust_the_poller() {
    let mut latches = LatchTable::new();
    let mut state = SharedOffloadState::new("pending", latches.create());
    let future = state.take_for_poll().expect("fixture future is present");
    assert_eq!(state.finish_poll(future, OffloadPoll::Finished), Some("pending"));

    assert!(state.take_for_poll().is_none());
    assert!(
        !state.polling,
        "a contract-violating re-poll with no future cannot leave a poller claimed"
    );
}

#[test]
fn raw_absent_offload_future_does_not_claim_a_poller() {
    exhaust_the_poller();
}

#[test]
fn tests_absent_offload_future_does_not_claim_a_poller() {
    exhaust_the_poller();
}

fn push_offloads(resources: &mut Resources, latches: &mut LatchTable) {
    for finished in [true, false, true] {
        let completion = latches.create();
        if finished {
            latches.fire(completion);
        }
        resources.offloads.push(OffloadResource {
            cancellation: latches.create(),
            finished: completion,
            state: None,
            task: None,
        });
    }
}

fn reclaim_the_ledger() {
    let mut latches = LatchTable::new();
    let mut resources: Resources = RawResources::new();
    push_offloads(&mut resources, &mut latches);

    resources.reclaim_finished(&latches);

    assert_eq!(
        resources.offloads.len(),
        1,
        "reclamation retains exactly the unfinished offloads"
    );
    assert!(!latches.is_fired(resources.offloads[0].finished));
}

#[test]
fn raw_finished_offload_ledger_entries_are_reclaimed() {
    reclaim_the_ledger();
}

#[test]
fn tests_finished_offload_ledger_entries_are_reclaimed() {
    reclaim_the_ledger();
}

fn stay_busy() {
    let mut fixture = Fixture::new();
    fixture.try_send(1).expect("a bound mailbox accepts the message");
    fixture.try_send(2).expect("a bound mailbox keeps the actor busy");
    push_offloads(&mut fixture.context.resources, &mut fixture.latches);

    assert_eq!(
        fixture.try_recv(),
        Ok(Some(1)),
        "a readable mailbox returns from ready selection without going idle"
    );

    assert_eq!(
        fixture.context.resources.offloads.len(),
        1,
        "the ready-selection turn reclaimed both finished ledger entries"
    );
    assert!(!fixture.latches.is_fired(fixture.context.resources.offloads[0].finished));
}

#[test]
fn raw_a_busy_receive_turn_reclaims_finished_offload_ledger_entries() {
    stay_busy();
}

#[test]
fn tests_a_busy_receive_turn_reclaims_finished_offload_ledger_entries() {
    stay_busy();
}

fn fill_resident_collections() {
    let mut latches = LatchTable::new();
    let mut resources: Resources = RawResources::new();
    assert!(resources.resume_pending_panic().is_none());

    resources.continuations.push_back(1);
    resources.events.push(QueuedEvent { cancellation: latches.create(), make_message: 2 });
    let mut garbage = Vec::new();
    resources
        .timers
        .replace(key(7), None, TimerMessage::Once(3), None, &mut garbage);

    // Each element is held as it came, and the one panic slot is the incarnation's own.
    assert!(garbage.is_empty());
    assert_eq!(resources.continuations.pop_front(), Some(1));
    assert_eq!(resources.events.pop().map(|event| event.make_message), Some(2));
    assert!(matches!(
        resources.timers.take(&key(7)).map(|entry| entry.message),
        Some(TimerMessage::Once(3))
    ));
    assert!(
        resources.resume_pending_panic().is_none(),
        "continuations, events, and timers store raw elements without disposal clones"
    );
}

#[test]
fn raw_resident_raw_collections_do_not_clone_disposal_per_element() {
    fill_resident_collections();
}

#[test]
fn tests_resident_raw_collections_do_not_clone_disposal_per_element() {
    fill_resident_collections();
}

fn freeze_every_collection() -> usize {
    let hostile = PanicPayload(1);
    let mut latches = LatchTable::new();
    let mut resources: Resources = RawResources::new();
    for message in [1, 2] {
        resources.continuations.push_back(message);
    }
    resources.events.push(QueuedEvent { cancellation: latches.create(), make_message: 3 });
    let mut garbage = Vec::new();
    resources
        .timers
        .replace(key(1), None, TimerMessage::Once(4), None, &mut garbage);

    // Every payload's destructor panics; the key's does not.
    let mut drops = 0;
    let steps = resources.freeze(&mut latches);
    let continuations = steps
        .iter()
        .filter(|step| matches!(step, Cleanup::Continuation(_)))
        .count();
    for step in steps {
        let raised = match step {
            Cleanup::Continuation(_)
            | Cleanup::Completion(_)
            | Cleanup::Timer(Garbage::Message(_)) => {
                drops += 1;
                Some(PanicPayload(drops))
            }
            Cleanup::Timer(Garbage::Key(_)) | Cleanup::Offload(_) => None,
        };
        resources.dispose(raised);
    }
    assert_eq!(
        drops, 4,
        "one hostile destructor cannot skip later collection elements or drains"
    );
    assert_eq!(
        resources.panic.take().expect("the first cleanup panic is retained"),
        hostile
    );
    continuations
}

#[test]
fn raw_freeze_drains_each_raw_collection_with_independent_containment() {
    assert_eq!(freeze_every_collection(), 2);
}

#[test]
fn tests_freeze_drains_each_raw_collection_with_independent_containment() {
    freeze_every_collection();
}

#[test]
fn freeze_preserves_an_offload_wake_panic_ahead_of_later_collection_disposal() {
    let wake = PanicPayload(1);
    let destructor = PanicPayload(2);
    let mut latches = LatchTable::new();
    let mut resources: Resources = RawResources::new();
    resources.continuations.push_back(9);
    let finished = latches.create();
    resources.offloads.push(OffloadResource {
        cancellation: latches.create(),
        finished,
        state: None,
        task: None,
    });

    let mut drops = 0;
    for step in resources.freeze(&mut latches) {
        let raised = match step {
            Cleanup::Offload(CancelStep::Notify(latch)) if latch == finished => Some(wake),
            Cleanup::Continuation(_) => {
                drops += 1;
                Some(destructor)
            }
            _ => None,
        };
        resources.dispose(raised);
    }
    assert_eq!(drops, 1);
    assert!(latches.is_fired(finished));
    assert_eq!(
        resources.panic.take().expect("the first cleanup failure is retained"),
        wake
    );
}

#[test]
fn freeze_preserves_future_disposal_ahead_of_its_later_finished_wake() {
    let destructor = PanicPayload(1);
    let wake = PanicPayload(2);
    let mut latches = LatchTable::new();
    let mut resources: Resources = RawResources::new();
    let finished = latches.create();
    resources.offloads.push(OffloadResource {
        cancellation: latches.create(),
        finished,
        state: Some(SharedOffloadState::new("future", finished)),
        task: None,
    });

    let mut drops = 0;
    for step in resources.freeze(&mut latches) {
        let raised = match step {
            Cleanup::Offload(CancelStep::Dispose("future")) => {
                drops += 1;
                Some(destructor)
            }
            Cleanup::Offload(CancelStep::Notify(latch)) if latch == finished => Some(wake),
            _ => None,
        };
        resources.dispose(raised);
    }
    assert_eq!(drops, 1);
    assert_eq!(
        resources.panic.take().expect("the first cleanup failure is retained"),
        destructor
    );
}

#[test]
fn repeated_freeze_preserves_the_first_failure_without_repeating_disposal() {
    let mut latches = LatchTable::new();
    let mut resources: Resources = RawResources::new();
    resources.continuations.push_back(1);

    let first = resources.freeze(&mut latches);
    assert_eq!(first.len(), 1);
    resources.dispose(Some(PanicPayload(5)));
    assert!(
        resources.freeze(&mut latches).is_empty(),
        "the freeze transition is one-shot"
    );
    assert_eq!(resources.resume_pending_panic(), Some(PanicPayload(5)));
}

#[test]
fn abort_first_stops_a_raw_context() {
    let mut fixture = Fixture::new();

    assert!(fixture.latches.fire(fixture.abort));
    assert!(fixture.context.is_stopping(&fixture.latches));
    fixture.context.mark_ready(&mut fixture.latches);
    assert!(
        !fixture.latches.is_fired(fixture.context.ready),
        "escalation suppresses readiness publication"
    );
    assert_eq!(
        fixture
            .context
            .continue_with(1, &fixture.latches)
            .map_err(Rejected::into_inner),
        Err(1),
        "escalation rejects new incarnation work"
    );
    assert!(!fixture.latches.is_fired(fixture.shutdown));
}

#[test]
fn recv_freezes_its_mailbox_when_it_observes_shutdown() {
    let mut fixture = Fixture::new();
    fixture.try_send(1).expect("the live mailbox accepts before shutdown");
    fixture.latches.fire(fixture.shutdown);

    let mut step = fixture.recv();
    while matches!(step, RecvStep::Ready(Found::Again)) {
        step = fixture.recv();
    }
    assert!(matches!(step, RecvStep::Ended));
    assert_eq!(
        fixture.try_send(2),
        Err(SendErrorKind::NotRunning),
        "the local freeze closes the acceptance boundary"
    );
}

#[test]
fn try_recv_freezes_its_mailbox_when_it_observes_shutdown() {
    let mut fixture = Fixture::new();
    fixture.try_send(1).expect("the live mailbox accepts before shutdown");
    fixture.latches.fire(fixture.shutdown);

    assert_eq!(
        fixture.try_recv(),
        Ok(Some(1)),
        "drain mode still reads the prefix accepted before the local freeze"
    );
    assert_eq!(
        fixture.try_send(2),
        Err(SendErrorKind::NotRunning),
        "the local freeze closes the acceptance boundary"
    );
}

#[test]
fn a_disposal_panic_retained_during_selection_fails_the_receive() {
    let mut fixture = Fixture::new();
    fixture.raised = |step| match step {
        Cleanup::Completion(_) => Some(PanicPayload(8)),
        _ => None,
    };
    let cancelled = fixture.queue_event(7);
    fixture.latches.fire(cancelled);
    fixture.queue_event(9);

    assert_eq!(
        fixture.try_recv(),
        Err(PanicPayload(8)),
        "a destructor panic retained by this receive fails it before the next delivery"
    );
    assert_eq!(fixture.destroyed, 1);
    assert!(fixture.context.resources.resume_pending_panic().is_none());
}

#[test]
fn a_fired_timer_key_destructor_panic_fails_the_receive() {
    let mut fixture = Fixture::new();
    assert!(fixture.set_timeout(key(1), 5, Duration::zero()), "the timer is armed");
    fixture.raised = |step| match step {
        Cleanup::Timer(Garbage::Key(_)) => Some(PanicPayload(8)),
        _ => None,
    };

    assert_eq!(
        fixture.try_recv(),
        Err(PanicPayload(8)),
        "the fired timer's message is not delivered"
    );
    assert_eq!(fixture.try_recv(), Ok(None), "the timer was consumed");
}

#[test]
fn cancelled_queued_event_is_disposed_without_materializing_its_message() {
    let mut fixture = Fixture::new();
    fixture.raised = |step| match step {
        Cleanup::Completion(_) => Some(PanicPayload(8)),
        _ => None,
    };
    let cancelled = fixture.queue_event(7);
    fixture.latches.fire(cancelled);

    assert_eq!(
        fixture.try_recv(),
        Err(PanicPayload(8)),
        "an empty receive must surface selection's disposal panic"
    );
    assert_eq!(
        fixture.destroyed, 1,
        "the queued completion is disposed at materialization time"
    );
    assert_eq!(fixture.try_recv(), Ok(None));
}

#[test]
fn a_completion_is_built_once_cancelled_ones_are_destroyed() {
    let mut fixture = Fixture::new();
    let cancelled = fixture.queue_event(7);
    fixture.queue_event(8);
    fixture.latches.fire(cancelled);

    let mut cleanup = Vec::new();
    let (found, _effects) = fixture.context.try_recv(
        &mut fixture.mailbox,
        &mut fixture.latches,
        fixture.now,
        &mut cleanup,
    );
    assert!(matches!(cleanup[..], [Cleanup::Completion(QueuedEvent { make_message: 7, .. })]));
    assert!(matches!(found, Found::Completion(8)), "nothing was built yet");
    fixture.context.resources.dispose(Some(PanicPayload(4)));
    let (ready, doomed) = fixture.context.resources.next_ready(
        found,
        fixture.now,
        &|message: &u8| *message,
        &|completion: u8| completion + 100,
    );
    assert!(matches!(ready, Ready::Resume(PanicPayload(4))));
    assert_eq!(doomed, Some(108), "the built message is destroyed in the panic's favour");
}

#[test]
fn an_interval_that_was_not_copied_is_found_again() {
    let mut fixture = Fixture::new();
    let mut cleanup = Vec::new();
    assert!(fixture
        .context
        .set_interval(
            key(1),
            6,
            Duration::from_nanos(10),
            fixture.now,
            &fixture.latches,
            &mut cleanup,
        )
        .is_ok());
    fixture.now = fixture.now.checked_add(Duration::from_nanos(10)).expect("an instant");
    for _ in 0..2 {
        let (found, _effects) = fixture.context.try_recv(
            &mut fixture.mailbox,
            &mut fixture.latches,
            fixture.now,
            &mut cleanup,
        );
        assert!(matches!(found, Found::Tick(ArmingOrder(1))));
    }
    assert_eq!(fixture.try_recv(), Ok(Some(6)));
    assert_eq!(fixture.try_recv(), Ok(None));
}

#[test]
fn a_published_completion_leaves_the_ledger() {
    let mut latches = LatchTable::new();
    let mut resources: Resources = RawResources::new();
    let finished = latches.create();
    let cancellation = latches.create();
    resources.offloads.push(OffloadResource {
        cancellation,
        finished,
        state: Some(SharedOffloadState::new("work", finished)),
        task: None,
    });
    latches.fire(finished);
    resources.reclaim_finished(&latches);
    assert_eq!(resources.offloads.len(), 1, "its wake may still run");
    resources.publish_finished(finished);
    resources.reclaim_finished(&latches);
    assert_eq!(resources.offloads.len(), 1, "another offload was published");
    resources.publish_finished(cancellation);
    resources.reclaim_finished(&latches);
    assert!(resources.offloads.is_empty());
}

fn fill_the_mailbox(fixture: &mut Fixture) -> shelterwood::mailbox::futures::SendFuture<u8> {
    for message in 0..64 {
        fixture.try_send(message).expect("fill the default mailbox");
    }
    let mut pending = fixture.actor.send(64);
    assert!(matches!(
        pending.poll(&mut fixture.mailbox, SENDER).result,
        Poll::Pending
    ));
    fixture.hostile = Some((SENDER, PanicPayload(3)));
    pending
}

#[test]
fn a_caught_mailbox_wake_panic_preserves_fired_timers_and_their_cutoff() {
    let mut fixture = Fixture::new();
    let _pending = fill_the_mailbox(&mut fixture);
    assert!(fixture.set_timeout(key(1), 100, Duration::zero()));

    assert_eq!(
        fixture.try_recv(),
        Err(PanicPayload(3)),
        "promoting the sender resumes its wake panic"
    );
    for expected in 1..64 {
        assert_eq!(fixture.try_recv(), Ok(Some(expected)));
    }
    assert_eq!(
        fixture.try_recv(),
        Ok(Some(100)),
        "the fired timer precedes post-cutoff promotion"
    );
    assert_eq!(fixture.try_recv(), Ok(Some(64)));
    assert_eq!(fixture.try_recv(), Ok(None));
    assert!(!fixture.clear_timer(key(1)), "the one-shot timer was delivered");
}

#[test]
fn a_caught_mailbox_wake_panic_spends_the_steady_mailbox_turn() {
    let mut fixture = Fixture::new();
    let _pending = fill_the_mailbox(&mut fixture);
    fixture.queue_event(100);

    assert_eq!(
        fixture.try_recv(),
        Err(PanicPayload(3)),
        "promoting the sender resumes its wake panic"
    );
    assert_eq!(
        fixture.try_recv(),
        Ok(Some(100)),
        "consumed mailbox input spends its fairness turn even when its wake panics"
    );
    assert_eq!(fixture.try_recv(), Ok(Some(1)));
}

#[test]
fn clearing_an_elapsed_undelivered_timer_skips_its_captured_arming() {
    let mut fixture = Fixture::new();
    fixture.arm_now(key(1), 1);
    fixture.arm_now(key(2), 2);

    assert_eq!(fixture.try_recv(), Ok(Some(1)));
    assert!(
        fixture.clear_timer(key(2)),
        "an elapsed timer remains clearable before delivery"
    );
    assert_eq!(
        fixture.try_recv(),
        Ok(None),
        "the fired batch skips an arming removed after its cut was captured"
    );
}

fn prefer_the_primary_panic() {
    let panics = UnwindPanics {
        primary: Some(PanicPayload(1)),
        cleanup: Some(PanicPayload(2)),
    };
    assert_eq!(panics.preferred(), Some(PanicPayload(1)), "the primary panic is resumed");
}

#[test]
fn raw_primary_panic_precedence_discards_a_secondary_cleanup_panic() {
    prefer_the_primary_panic();
}

#[test]
fn tests_primary_panic_precedence_discards_a_secondary_cleanup_panic() {
    prefer_the_primary_panic();
}

fn resume_what_is_there() {
    let primary = Some(PanicPayload(1));
    let cleanup = Some(PanicPayload(2));
    assert_eq!(
        UnwindPanics { primary, cleanup: None }.preferred(),
        primary,
        "a sole-owned primary panic is never contained"
    );
    assert_eq!(
        UnwindPanics { primary: None, cleanup }.preferred(),
        cleanup,
        "cleanup stands in when there is no primary panic"
    );
    assert_eq!(UnwindPanics { primary: None, cleanup: None }.preferred(), None);
}

#[test]
fn raw_the_incarnation_return_path_resumes_a_primary_panic_it_solely_owns() {
    resume_what_is_there();
}

#[test]
fn tests_the_incarnation_return_path_resumes_a_primary_panic_it_solely_owns() {
    resume_what_is_there();
}

#[test]
fn ordinary_offload_completion_retains_a_finished_waiter_wake_panic() {
    let mut latches = LatchTable::new();
    let mut resources: Resources = RawResources::new();
    let finished = latches.create();
    let mut state = SharedOffloadState::new("work", finished);
    let future = state.take_for_poll().expect("the work is there");
    let step = state.after_poll(future, Caught::Ready(()));
    assert_eq!(step.dispose, Some("work"));
    assert!(step.finish);
    assert_eq!(step.result, Poll::Ready(()));
    assert!(state.fire_finished(&mut latches), "all completion waiters are released");
    resources.offloads.push(OffloadResource {
        cancellation: latches.create(),
        finished,
        state: Some(state),
        task: None,
    });

    resources.reclaim_finished(&latches);
    assert_eq!(
        resources.offloads.len(),
        1,
        "the fired bit cannot retire work before its hostile wake is contained"
    );
    assert!(resources.resume_pending_panic().is_none());

    resources.record(PanicPayload(4));
    resources.offloads[0]
        .state
        .as_mut()
        .expect("the ledger holds the state")
        .publish_finished();
    resources.reclaim_finished(&latches);
    assert!(
        resources.offloads.is_empty(),
        "the ledger retires work after notification publication"
    );
    assert_eq!(
        resources.resume_pending_panic(),
        Some(PanicPayload(4)),
        "the caller's original payload is retained"
    );
}

#[test]
fn cancelling_a_polled_offload_hands_its_future_back_once() {
    let mut latches = LatchTable::new();
    let finished = latches.create();
    let mut state = SharedOffloadState::new("work", finished);
    let future = state.take_for_poll().expect("the work is there");
    assert_eq!(state.cancel(), None, "the poller holds the future");
    assert_eq!(state.cancel(), None, "repeat cancellation is inert");
    let step = state.after_poll(future, Caught::Pending);
    assert_eq!(step.dispose, Some("work"));
    assert_eq!(step.result, Poll::Ready(()), "a cancelled poll is over");

    let mut idle = SharedOffloadState::new("idle", finished);
    assert_eq!(idle.cancel(), Some("idle"));
    assert_eq!(idle.cancel(), None);
}

#[test]
fn a_pending_offload_is_kept_for_its_next_poll() {
    let mut latches = LatchTable::new();
    let mut state = SharedOffloadState::new("work", latches.create());
    let future = state.take_for_poll().expect("the work is there");
    let step = state.after_poll(future, Caught::Pending);
    assert!(step.dispose.is_none() && !step.finish);
    assert_eq!(step.result, Poll::Pending);
    let future = state.take_for_poll().expect("the work is still there");
    let step = state.after_poll(future, Caught::Panicked(PanicPayload(6)));
    assert_eq!(step.record, Some(PanicPayload(6)));
    assert!(step.finish);
}

#[test]
fn a_cancelled_offload_releases_everything_it_holds() {
    let mut latches = LatchTable::new();
    let cancellation = latches.create();
    let finished = latches.create();
    let mut offload = OffloadResource {
        cancellation,
        finished,
        state: Some(SharedOffloadState::new("work", finished)),
        task: Some(12),
    };
    let steps = offload.cancel(&mut latches);
    assert!(steps.iter().any(|step| matches!(step, CancelStep::Dispose("work"))));
    assert!(steps.iter().any(|step| matches!(step, CancelStep::Abort(12))));
    assert!(latches.is_fired(cancellation) && latches.is_fired(finished));
    let told = |step: &CancelStep<&str>| match step {
        CancelStep::Notify(latch) => *latch == finished,
        _ => false,
    };
    let woken = steps.iter().position(told).expect("completion is announced");
    assert!(
        matches!(steps[woken + 1], CancelStep::Publish(latch) if latch == cancellation),
        "publication follows the wake"
    );
    assert!(!offload.is_retirable(&latches), "the wake has not returned");
    offload.publish_finished(cancellation);
    assert!(offload.is_retirable(&latches));
    let again = offload.cancel(&mut latches);
    assert!(
        !again.iter().any(|step| matches!(step, CancelStep::Dispose(_))),
        "repeat cancellation is inert"
    );
}

#[test]
fn joining_offloads_retains_a_framework_task_panic() {
    let mut resources: Resources = RawResources::new();
    let outcome = JoinOutcome::Panic { message: Some("unit framework offload panic".to_string()) };
    assert_eq!(outcome.diagnostic(), Some("unit framework offload panic".to_string()));
    assert_eq!(JoinOutcome::Finished.diagnostic(), None);
    assert_eq!(JoinOutcome::Cancelled.diagnostic(), None);
    resources.record(PanicPayload(1));
    let steps = resources.finish_join();
    assert!(steps.is_empty());
    assert_eq!(
        resources.resume_pending_panic(),
        Some(PanicPayload(1)),
        "the framework panic is retained for incarnation teardown"
    );
}

#[test]
fn the_first_panic_is_kept_and_a_later_one_handed_back() {
    let mut slot = PanicSlot::new();
    assert_eq!(slot.record(PanicPayload(1)), None);
    assert_eq!(slot.record(PanicPayload(2)), Some(PanicPayload(2)));
    assert_eq!(slot.take(), Some(PanicPayload(1)));
    assert_eq!(slot.take(), None);
    slot.record_all(&vec![None, Some(PanicPayload(3)), Some(PanicPayload(4))]);
    assert_eq!(slot.restore_first(PanicPayload(0)), Some(PanicPayload(3)));
    assert_eq!(slot.take(), Some(PanicPayload(0)));
}

#[test]
fn continuations_do_not_starve_the_mailbox() {
    let mut fixture = Fixture::new();
    fixture.try_send(1).expect("the live mailbox accepts");
    fixture.try_send(2).expect("the live mailbox accepts");
    for message in [11, 12] {
        assert!(fixture.context.continue_with(message, &fixture.latches).is_ok());
    }
    assert_eq!(fixture.try_recv(), Ok(Some(11)), "a continuation leads");
    assert_eq!(fixture.try_recv(), Ok(Some(1)), "then the mailbox has its turn");
    assert_eq!(fixture.try_recv(), Ok(Some(12)));
    assert_eq!(fixture.try_recv(), Ok(Some(2)));
    assert_eq!(fixture.try_recv(), Ok(None));
}

#[test]
fn a_busy_mailbox_does_not_starve_completions() {
    let mut fixture = Fixture::new();
    for message in 1..=3 {
        fixture.try_send(message).expect("the live mailbox accepts");
    }
    fixture.queue_event(100);
    assert_eq!(fixture.try_recv(), Ok(Some(1)));
    assert_eq!(fixture.try_recv(), Ok(Some(100)));
    assert_eq!(fixture.try_recv(), Ok(Some(2)));
    assert_eq!(fixture.try_recv(), Ok(Some(3)));
}

#[test]
fn a_queued_completion_waits_for_at_most_two_messages() {
    let mut fixture = Fixture::new();
    fixture.try_send(1).expect("the live mailbox accepts");
    assert!(fixture.context.continue_with(50, &fixture.latches).is_ok());
    assert_eq!(fixture.try_recv(), Ok(Some(50)), "a selection is in progress");
    fixture.queue_event(100);
    for message in 2..=4 {
        fixture.try_send(message).expect("the live mailbox accepts");
    }
    assert_eq!(fixture.try_recv(), Ok(Some(1)), "the selection has its one message");
    fixture.queue_event(101);
    assert_eq!(fixture.try_recv(), Ok(Some(2)), "so has the one that captures the completion");
    assert_eq!(fixture.try_recv(), Ok(Some(100)));
    assert_eq!(fixture.try_recv(), Ok(Some(101)));
    assert_eq!(fixture.try_recv(), Ok(Some(3)));
}

#[test]
fn later_arrivals_do_not_jump_a_fired_cut() {
    let mut fixture = Fixture::new();
    fixture.try_send(1).expect("the live mailbox accepts");
    fixture.arm_now(key(1), 50);
    assert_eq!(fixture.try_recv(), Ok(Some(1)), "work before the fire comes first");
    fixture.try_send(2).expect("the live mailbox accepts");
    assert_eq!(fixture.try_recv(), Ok(Some(50)));
    assert_eq!(fixture.try_recv(), Ok(Some(2)));
}

#[test]
fn a_zero_period_interval_is_a_cleared_timer() {
    let mut fixture = Fixture::new();
    assert!(fixture.set_timeout(key(1), 5, Duration::from_secs(1)));
    let mut cleanup = Vec::new();
    let verdict = fixture.context.set_interval(
        key(1),
        6,
        Duration::zero(),
        fixture.now,
        &fixture.latches,
        &mut cleanup,
    );
    assert!(verdict.is_ok());
    assert_eq!(cleanup.len(), 4, "the old timer and both new inputs are destroyed");
    assert_eq!(fixture.context.next_timer_deadline(), None);
}

#[test]
fn an_interval_ticks_until_it_is_cleared() {
    let mut fixture = Fixture::new();
    let mut cleanup = Vec::new();
    let period = Duration::from_nanos(10);
    let armed = fixture.context.set_interval(
        key(1),
        6,
        period,
        fixture.now,
        &fixture.latches,
        &mut cleanup,
    );
    assert!(armed.is_ok());
    for _ in 0..3 {
        assert_eq!(fixture.try_recv(), Ok(None));
        fixture.now = fixture.now.checked_add(period).expect("a representable instant");
        assert_eq!(fixture.try_recv(), Ok(Some(6)));
    }
    assert!(fixture.clear_timer(key(1)));
    fixture.now = fixture.now.checked_add(period).expect("a representable instant");
    assert_eq!(fixture.try_recv(), Ok(None));
}

#[test]
fn a_stopping_context_turns_work_away() {
    let mut fixture = Fixture::new();
    let (effects, steps) = fixture.context.stop(&mut fixture.mailbox, &mut fixture.latches);
    assert!(effects.pulse);
    assert!(steps.is_empty());
    assert!(fixture.context.is_stopping(&fixture.latches));
    assert!(fixture.context.rejects_new_work(&fixture.latches));
    assert!(!fixture.set_timeout(key(1), 1, Duration::zero()));
    assert!(fixture.context.continue_with(1, &fixture.latches).is_err());
    let refused = fixture.context.offload(
        "work",
        7_u8,
        DeadlineBudget::new(Duration::from_secs(1)),
        fixture.now,
        &mut fixture.latches,
        &|continuation: u8, _elapsed: DeadlineElapsed| continuation,
        &|work, _continuation, _plan| (work, 1),
    );
    assert_eq!(refused.map_err(Rejected::into_inner), Err(("work", 7)));
}

#[test]
fn stopping_twice_is_stopping_once() {
    let mut fixture = Fixture::new();
    fixture.try_send(1).expect("the live mailbox accepts");
    assert!(fixture.context.continue_with(2, &fixture.latches).is_ok());
    let (first, steps) = fixture.context.stop(&mut fixture.mailbox, &mut fixture.latches);
    assert!(first.pulse);
    assert_eq!(steps.len(), 1);
    let (second, steps) = fixture.context.stop(&mut fixture.mailbox, &mut fixture.latches);
    assert!(second.is_empty());
    assert!(steps.is_empty());
    assert_eq!(fixture.try_recv(), Ok(Some(1)), "the accepted prefix is drained");
    assert_eq!(fixture.try_recv(), Ok(None));
}

#[test]
fn readiness_is_published_before_a_deferred_stop() {
    let mut fixture = Fixture::with(Readiness::AfterInit, MailboxShutdown::Drain);
    assert_eq!(fixture.context.readiness(), Readiness::AfterInit);
    fixture
        .context
        .defer_stop_until_after_init(&mut fixture.mailbox, &mut fixture.latches);
    assert!(fixture.context.is_stopping(&fixture.latches));
    assert!(!fixture.latches.is_fired(fixture.context.local_stop));
    fixture.context.finish_callback_init(true, &mut fixture.latches);
    assert!(fixture.latches.is_fired(fixture.context.ready));
    assert!(fixture.latches.is_fired(fixture.context.local_stop));
    assert!(fixture.context.is_stopping(&fixture.latches));
}

#[test]
fn a_failed_initialization_publishes_no_readiness() {
    let mut fixture = Fixture::with(Readiness::AfterInit, MailboxShutdown::Drain);
    fixture.context.finish_callback_init(false, &mut fixture.latches);
    assert!(!fixture.latches.is_fired(fixture.context.ready));
}

#[test]
fn offloaded_work_comes_back_as_a_message() {
    let mut fixture = Fixture::new();
    let started = fixture.context.offload_scoped(
        "work",
        7_u8,
        DeadlineBudget::new(Duration::from_secs(1)),
        fixture.now,
        &mut fixture.latches,
        &|continuation: u8, _elapsed: DeadlineElapsed| continuation,
        &|work, _continuation, _plan| (work, 21),
    );
    let Ok((guard, None)) = started else {
        panic!("the offload starts")
    };
    assert!(!guard.is_finished(&fixture.latches));
    assert_eq!(fixture.context.resources.offloads.len(), 1);
    let cancellation = guard.cancellation;
    fixture
        .context
        .settle_offload(cancellation, OffloadOutcome::Completed(77));
    assert_eq!(fixture.try_recv(), Ok(Some(77)));

    fixture
        .context
        .settle_offload(cancellation, OffloadOutcome::Completed(78));
    guard.cancel(&mut fixture.latches);
    assert_eq!(fixture.try_recv(), Ok(None), "a cancelled completion is dropped");
    fixture
        .context
        .settle_offload(cancellation, OffloadOutcome::Panicked(PanicPayload(2)));
    assert_eq!(fixture.try_recv(), Err(PanicPayload(2)));
    assert_eq!(
        fixture.context.settle_offload(cancellation, OffloadOutcome::Cancelled),
        None
    );
}

#[test]
fn an_offload_without_time_is_completed_unattempted() {
    let mut fixture = Fixture::new();
    let started = fixture.context.offload(
        "work",
        7_u8,
        DeadlineBudget::new(Duration::zero()),
        fixture.now,
        &mut fixture.latches,
        &|continuation: u8, _elapsed: DeadlineElapsed| continuation + 100,
        &|_work, _continuation, _plan| panic!("nothing is spawned"),
    );
    assert_eq!(started, Ok(Some("work")));
    assert_eq!(fixture.try_recv(), Ok(Some(107)));
    assert!(!DeadlineElapsed.message().is_empty());
}

#[test]
fn a_guard_cancels_on_release_unless_detached() {
    let mut latches = LatchTable::new();
    let cancellation = latches.create();
    let finished = latches.create();
    let guard = |armed: bool| Guard { cancellation, finished, armed };
    guard(true).detach().release(&mut latches);
    assert!(!latches.is_fired(cancellation));
    assert_eq!(guard(true).finished(&latches), Poll::Pending);
    guard(true).release(&mut latches);
    assert!(guard(true).is_cancelled(&latches));
    latches.fire(finished);
    assert_eq!(guard(true).finished(&latches), Poll::Ready(()));
}

#[test]
fn unfinished_blocking_work_is_cancelled_on_release() {
    let mut fixture = Fixture::new();
    let blocking: Blocking<_> = fixture.context.run_blocking(&mut fixture.latches, &|token| token);
    let token = blocking.future;
    assert!(!token.is_cancelled(&fixture.latches));
    blocking.release(&mut fixture.latches);
    assert!(token.is_cancelled(&fixture.latches));

    let mut finished = fixture.context.run_blocking(&mut fixture.latches, &|token| token);
    let token = finished.future;
    assert_eq!(finished.poll(Poll::Ready(4)), Poll::Ready(4));
    finished.release(&mut fixture.latches);
    assert!(!token.is_cancelled(&fixture.latches));
    fixture.latches.fire(fixture.shutdown);
    assert!(token.is_cancelled(&fixture.latches), "a token follows its parent");
}

#[test]
fn a_context_knows_its_surroundings() {
    let mut fixture = Fixture::new();
    assert_eq!(fixture.context.id().as_str(), "raw-actor");
    assert_eq!(fixture.context.incarnation(), incarnation());
    assert!(fixture.context.myself() == fixture.actor);
    assert_eq!(fixture.context.scope(), ScopeId(3));
    assert_eq!(fixture.context.request_scope_shutdown(), ScopeId(3));
    assert_eq!(fixture.context.mailbox_shutdown(), MailboxShutdown::Drain);
    assert!(!fixture.context.shutdown_token().is_cancelled(&fixture.latches));
    assert!(!fixture.context.abort_token().is_cancelled(&fixture.latches));
    fixture.context.mark_ready(&mut fixture.latches);
    assert!(fixture.latches.is_fired(fixture.context.ready));
    assert!(fixture.set_timeout(key(1), 1, Duration::from_nanos(5)));
    assert_eq!(
        fixture.context.wait_for_event(&fixture.latches),
        fixture.now.checked_add(Duration::from_nanos(5))
    );
}

#[test]
fn a_latch_fires_once() {
    let mut latches = LatchTable::new();
    let latch = latches.create();
    assert!(!latches.is_fired(latch));
    assert!(latches.fire(latch));
    assert!(!latches.fire(latch));
    assert!(latches.is_fired(latch));
}

#[test]
fn a_disposing_queue_hands_out_what_it_holds() {
    let mut queue = DisposingQueue::new();
    queue.push_back(1);
    queue.push_back(2);
    let mut taken = queue.take();
    assert!(queue.is_empty());
    assert_eq!(taken.len(), 2);
    assert_eq!(taken.pop_front(), Some(1));
    assert_eq!(taken.clear(), [2]);
    assert_eq!(taken.pop_front(), None);
}

#[test]
fn a_one_shot_definition_spawns_once() {
    let mut once = RawOnceDef::new("actor").erase::<&str>(Readiness::Manual);
    assert!(once.one_shot());
    assert_eq!(once.readiness(), Readiness::Manual);
    assert!(matches!(once.take_spawn(), RawSpawn::OneShot("actor")));
    assert!(matches!(once.source, DefinitionSource::OneShot(None)));

    let mut many = RawDef::factory("factory").erase::<&str>(Readiness::Immediate);
    assert!(!many.one_shot());
    for _ in 0..2 {
        assert!(matches!(many.take_spawn(), RawSpawn::Restartable("factory")));
    }
}

#[test]
fn a_panic_of_the_actor_is_never_masked() {
    let fixture = Fixture::new();
    let owner: RawIncarnationOwner<u8, u8, &str, u8> =
        RawIncarnationOwner::new(fixture.context, Err(PanicPayload(1)));
    assert_eq!(
        owner.finish(Some(PanicPayload(2)), Some(PanicPayload(3))),
        Err(PanicPayload(1))
    );

    let fixture = Fixture::new();
    let owner: RawIncarnationOwner<u8, u8, &str, u8> =
        RawIncarnationOwner::new(fixture.context, Ok(9));
    assert_eq!(owner.finish(None, None), Ok(9));
}

#[test]
fn a_frozen_owner_retains_the_first_cleanup_panic() {
    let mut fixture = Fixture::new();
    assert!(fixture.context.continue_with(1, &fixture.latches).is_ok());
    let mut owner: RawIncarnationOwner<u8, u8, &str, u8> =
        RawIncarnationOwner::new(fixture.context, Ok(9));
    let (_effects, steps) = owner.freeze(&mut fixture.mailbox, &mut fixture.latches);
    assert_eq!(steps.len(), 1);
    owner.settle_freeze(&vec![Some(PanicPayload(5))], Some(PanicPayload(6)));
    assert!(owner.begin_join().is_empty());
    assert_eq!(owner.finish(None, None), Err(PanicPayload(5)));
}
