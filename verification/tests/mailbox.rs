use shelterwood::identity::{ChildId, Incarnation, Membership};
use shelterwood::mailbox::call::CallEnv;
use shelterwood::mailbox::cell::{BindRefusal, MailboxBindToken, MailboxCell, TeardownEnd};
use shelterwood::mailbox::deadline::{DeadlineOperation, DeadlinePhase, Deadlined};
use shelterwood::mailbox::effects::FlushStep;
use shelterwood::mailbox::futures::{SendFutureState, SendPoll};
use shelterwood::mailbox::handle::{ActorRef, MailboxReceiver, MemberCell};
use shelterwood::mailbox::model::Submission;
use shelterwood::mailbox::operation::{
    WakerEffect, WakerId, WithdrawalDisposition, WithdrawalOutcome,
};
use shelterwood::mailbox::reply::OneShot;
use shelterwood::mailbox::state::{AcceptedSequence, ReceiveMode};
use shelterwood::mailbox::{CallErrorKind, SendErrorKind};
use shelterwood::policy::{Capacity, ResolvedMailbox};
use shelterwood::poll::Poll;
use shelterwood::time::{Deadline, DeadlineBudget, Duration, Instant};

const SLOT: u64 = 11;
const NOOP: WakerId = WakerId(0);
const CALLER: WakerId = WakerId(1);
const OTHER: WakerId = WakerId(2);

fn member() -> MemberCell {
    MemberCell::new(
        SLOT,
        ChildId::new("actor".to_string()),
        Membership { lineage: 1, generation: 1 },
    )
}

fn incarnation(ordinal: u64) -> Incarnation {
    Incarnation { membership: member().membership, ordinal }
}

fn actor<M>() -> (MailboxCell<M>, ActorRef<M>) {
    let member = member();
    (MailboxCell::new(member.id.clone(), SLOT), ActorRef::new(&member))
}

fn queue(capacity: usize) -> ResolvedMailbox {
    ResolvedMailbox::Queue(Capacity::new(capacity).expect("a positive capacity"))
}

fn bound<M>(kind: ResolvedMailbox) -> (MailboxCell<M>, ActorRef<M>) {
    let (mut mailbox, actor) = actor();
    let token = mailbox.configure(kind);
    mailbox.bind(token, incarnation(1));
    (mailbox, actor)
}

fn receive(mailbox: &mut MailboxCell<u8>) -> Option<u8> {
    mailbox.receive(incarnation(1), ReceiveMode::Drain).0
}

fn is_pending<M>(polled: &SendPoll<M>) -> bool {
    matches!(polled.result, Poll::Pending)
}

/// Counts what a poll does with one waker.
#[derive(Default)]
struct VtableCalls {
    clones: usize,
    drops: usize,
}

impl VtableCalls {
    fn record<M>(&mut self, polled: &SendPoll<M>, caller: WakerId, counted: WakerId) {
        if polled.cloned && caller == counted {
            self.clones += 1;
        }
        for effect in &polled.effects.wakers {
            match effect {
                WakerEffect::DropInline(waker) | WakerEffect::Dispose(waker)
                    if *waker == counted =>
                {
                    self.drops += 1;
                }
                _ => {}
            }
        }
    }
}

#[derive(Default)]
struct PendingOnFirstExpiry {
    elapsed_polls: usize,
}

impl DeadlineOperation for PendingOnFirstExpiry {
    type Env = ();
    type Output = usize;
    type Effects = ();

    // The four predicates describe the operation and are never called.
    fn pollable(self, _env: ()) -> bool {
        unreachable!()
    }

    fn endable(self, _env: ()) -> bool {
        unreachable!()
    }

    fn pass(
        self,
        _env: (),
        _waker: WakerId,
        _budget: Deadline,
        _phase: DeadlinePhase,
        _after: Self,
        _env_after: (),
        _result: Poll<usize>,
        _effects: (),
    ) -> bool {
        unreachable!()
    }

    fn cut(
        self,
        _env: (),
        _after: Self,
        _env_after: (),
        _output: usize,
        _effects: (),
    ) -> bool {
        unreachable!()
    }

    fn poll_deadlined(
        &mut self,
        _env: &mut (),
        _waker: WakerId,
        _budget: Deadline,
        phase: DeadlinePhase,
    ) -> (Poll<usize>, ()) {
        if phase == DeadlinePhase::InitialAttempt {
            return (Poll::Pending, ());
        }
        self.elapsed_polls += 1;
        if self.elapsed_polls == 1 {
            (Poll::Pending, ())
        } else {
            (Poll::Ready(self.elapsed_polls), ())
        }
    }

    fn short_circuit(&mut self, _env: &mut ()) -> (usize, ()) {
        (self.elapsed_polls, ())
    }
}

#[test]
fn a_zero_budget_short_circuits_without_polling_the_operation() {
    let mut future = Deadlined::no_attempt(
        PendingOnFirstExpiry::default(),
        DeadlineBudget::new(Duration::zero()),
    );
    assert_eq!(future.start(Instant::from_nanos(5)), None);

    let polled = future.poll(&mut (), NOOP, false);
    assert!(matches!(polled.result, Poll::Ready(0)));
    assert_eq!(
        future.operation.elapsed_polls, 0,
        "a zero budget never attempts the operation"
    );
}

#[test]
fn a_fired_timer_keeps_arbitrating_until_the_operation_decides() {
    let mut future = Deadlined::no_attempt(
        PendingOnFirstExpiry::default(),
        DeadlineBudget::new(Duration::from_secs(1)),
    );
    let armed = future.start(Instant::from_nanos(5));
    assert_eq!(armed, Some(Instant::from_nanos(1_000_000_005)));

    assert!(matches!(future.poll(&mut (), NOOP, false).result, Poll::Pending));
    assert_eq!(future.operation.elapsed_polls, 0);
    assert!(matches!(future.poll(&mut (), NOOP, true).result, Poll::Pending));
    assert!(future.timer.is_none(), "a timer that fired is retired");
    assert!(matches!(future.poll(&mut (), NOOP, false).result, Poll::Ready(2)));
}

#[test]
fn an_expired_operation_arbitrates_without_another_attempt() {
    let mut future = Deadlined::no_attempt(
        PendingOnFirstExpiry::default(),
        DeadlineBudget::new(Duration::from_secs(1)),
    );
    future.start(Instant::from_nanos(5));
    assert!(matches!(future.poll(&mut (), NOOP, false).result, Poll::Pending));
    assert!(matches!(future.expire(&mut (), NOOP).0, Poll::Pending));
    assert!(future.timer.is_none());
    assert!(matches!(future.phase, DeadlinePhase::TimeoutArbitration));
    assert!(matches!(future.poll(&mut (), NOOP, false).result, Poll::Ready(2)));
}

#[test]
fn an_accepted_send_reports_acceptance_on_every_poll() {
    let (mut mailbox, actor) = bound::<u8>(queue(64));
    let mut send = actor.send(1);
    let Poll::Ready(Ok(first)) = send.poll(&mut mailbox, NOOP).result else {
        panic!("a bound, non-full mailbox accepts immediately")
    };
    let Poll::Ready(Ok(second)) = send.poll(&mut mailbox, NOOP).result else {
        panic!("a completed send stays observable")
    };
    assert_eq!(first, second);
    assert_eq!(first, incarnation(1));
}

#[test]
fn replacing_a_send_waker_runs_its_vtable_outside_the_operation_lock() {
    let (mut mailbox, actor) = actor::<u8>();
    let mut send = actor.send(1);
    assert!(is_pending(&send.poll(&mut mailbox, NOOP)));
    assert!(
        matches!(send.state, SendFutureState::Parked(_)),
        "an unbound mailbox parks its send"
    );

    let mut calls = VtableCalls::default();
    let polled = send.poll(&mut mailbox, CALLER);
    assert!(is_pending(&polled));
    calls.record(&polled, CALLER, CALLER);
    assert_eq!(polled.effects.wakers, [WakerEffect::DropInline(NOOP)]);
    // The caller's own reference goes away.
    calls.drops += 1;
    let polled = send.poll(&mut mailbox, NOOP);
    assert!(is_pending(&polled));
    calls.record(&polled, NOOP, CALLER);

    assert_eq!(calls.clones, 1);
    assert_eq!(calls.drops, 2);
}

#[test]
fn dropping_a_never_polled_send_disposes_the_message_exactly_once() {
    let (mut mailbox, actor) = actor::<&'static str>();
    let cancelled = actor.send("unsent").cancel(&mut mailbox);
    assert_eq!(cancelled.message, Some("unsent"));
    assert!(cancelled.wakers.is_empty());

    let token = mailbox.configure(queue(4));
    mailbox.bind(token, incarnation(1));
    assert!(mailbox.receive(incarnation(1), ReceiveMode::Drain).0.is_none());
}

#[test]
fn cancelling_a_parked_send_disposes_its_waker_in_isolation() {
    let (mut mailbox, actor) = actor::<u8>();
    let mut send = actor.send(1);
    assert!(is_pending(&send.poll(&mut mailbox, CALLER)));

    let cancelled = send.cancel(&mut mailbox);

    assert_eq!(cancelled.message, Some(1));
    assert_eq!(cancelled.wakers, [WakerEffect::Dispose(CALLER)]);
}

#[test]
fn a_completed_send_reports_its_outcome_without_touching_the_caller_vtable() {
    let (mut mailbox, actor) = actor::<u8>();
    let mut send = actor.send(1);
    assert!(is_pending(&send.poll(&mut mailbox, NOOP)));
    let mut teardown = mailbox.prepare_termination().expect("the mailbox terminates once");
    teardown.finish_framework(&mut mailbox);

    let mut calls = VtableCalls::default();
    let polled = send.poll(&mut mailbox, CALLER);
    calls.record(&polled, CALLER, CALLER);
    let Poll::Ready(Err(error)) = polled.result else {
        panic!("a terminated mailbox completes its parked send")
    };
    assert_eq!(error.kind, SendErrorKind::Terminated);
    assert_eq!(error.message, 1);
    assert_eq!(
        calls.clones, 0,
        "a completing poll never speculatively clones the caller waker"
    );
    // The caller's own reference goes away.
    calls.drops += 1;
    assert_eq!(calls.drops, 1);
}

#[test]
fn repolling_a_parked_send_with_the_same_waker_touches_no_vtable() {
    let (mut mailbox, actor) = actor::<u8>();
    let mut send = actor.send(1);
    assert!(is_pending(&send.poll(&mut mailbox, NOOP)));
    let mut calls = VtableCalls::default();

    for _ in 0..4 {
        let polled = send.poll(&mut mailbox, CALLER);
        assert!(is_pending(&polled));
        calls.record(&polled, CALLER, CALLER);
    }

    assert_eq!(
        calls.clones, 1,
        "an identical waker registers once and is skipped on every repoll"
    );
    assert_eq!(calls.drops, 0);
}

#[test]
fn delivery_follows_acceptance_order() {
    let (mut mailbox, actor) = bound::<u8>(queue(3));
    for message in [10, 20, 30] {
        assert!(actor.try_send(&mut mailbox, message).0.is_ok());
    }
    assert_eq!(mailbox.accepted_sequence(), AcceptedSequence(3));
    assert_eq!(receive(&mut mailbox), Some(10));
    assert_eq!(receive(&mut mailbox), Some(20));
    assert_eq!(receive(&mut mailbox), Some(30));
    assert_eq!(receive(&mut mailbox), None);
}

#[test]
fn a_full_queue_refuses_an_immediate_send_and_parks_a_waiting_one() {
    let (mut mailbox, actor) = bound::<u8>(queue(1));
    assert!(actor.try_send(&mut mailbox, 1).0.is_ok());
    let refused = actor.try_send(&mut mailbox, 2).0.expect_err("the queue is full");
    assert_eq!(refused.kind, SendErrorKind::Full);
    assert_eq!(refused.message, 2);
    assert_eq!(refused.actor_id.as_str(), "actor");
    assert_eq!(refused.incarnation_observed, Some(incarnation(1)));

    let mut waiting = actor.send(3);
    assert!(is_pending(&waiting.poll(&mut mailbox, CALLER)));
    let later = actor.try_send(&mut mailbox, 4).0.expect_err("a parked send goes first");
    assert_eq!(later.kind, SendErrorKind::Full);

    let (taken, effects) = mailbox.receive(incarnation(1), ReceiveMode::Drain);
    assert_eq!(taken, Some(1));
    assert_eq!(effects.wakers, [WakerEffect::Wake(CALLER)]);
    assert!(matches!(
        waiting.poll(&mut mailbox, CALLER).result,
        Poll::Ready(Ok(accepting)) if accepting == incarnation(1)
    ));
    assert_eq!(receive(&mut mailbox), Some(3));
}

#[test]
fn a_latest_mailbox_keeps_the_newest_and_hands_back_the_displaced() {
    let (mut mailbox, actor) = bound::<u8>(ResolvedMailbox::Latest);
    assert!(actor.try_send(&mut mailbox, 1).0.is_ok());
    let (second, effects) = actor.try_send(&mut mailbox, 2);
    assert!(second.is_ok());
    let displaced: Vec<u8> = effects.displaced.into_iter().map(|kept| kept.message).collect();
    assert_eq!(displaced, [1]);
    assert_eq!(receive(&mut mailbox), Some(2));
    assert_eq!(receive(&mut mailbox), None);
}

#[test]
fn only_a_live_mailbox_accepts() {
    let (mut mailbox, actor) = actor::<u8>();
    let unbound = actor.try_send(&mut mailbox, 1).0.expect_err("nothing is bound yet");
    assert_eq!(unbound.kind, SendErrorKind::NotRunning);
    assert_eq!(unbound.incarnation_observed, None);

    let token = mailbox.configure(queue(2));
    mailbox.bind(token, incarnation(1));
    assert!(actor.try_send(&mut mailbox, 2).0.is_ok());
    mailbox.freeze(incarnation(1));
    let frozen = actor.try_send(&mut mailbox, 3).0.expect_err("intake is frozen");
    assert_eq!(frozen.kind, SendErrorKind::NotRunning);
    assert_eq!(frozen.incarnation_observed, Some(incarnation(1)));
    assert_eq!(receive(&mut mailbox), Some(2), "the accepted prefix stays readable");

    mailbox.prepare_termination().expect("the mailbox terminates once");
    let terminal = actor.try_send(&mut mailbox, 4).0.expect_err("the actor is gone");
    assert_eq!(terminal.kind, SendErrorKind::Terminated);
    assert!(mailbox.prepare_termination().is_none());
}

#[test]
fn binding_promotes_the_oldest_parked_sends_first() {
    let (mut mailbox, actor) = actor::<u8>();
    let mut sends: Vec<_> = [1, 2, 3].into_iter().map(|message| actor.send(message)).collect();
    for (place, send) in sends.iter_mut().enumerate() {
        assert!(is_pending(&send.poll(&mut mailbox, WakerId(place as u64))));
    }
    let token = mailbox.configure(queue(2));
    let effects = mailbox.bind(token, incarnation(1));
    assert_eq!(
        effects.wakers,
        [WakerEffect::Wake(WakerId(0)), WakerEffect::Wake(WakerId(1))]
    );
    assert!(matches!(sends[0].poll(&mut mailbox, NOOP).result, Poll::Ready(Ok(_))));
    assert!(matches!(sends[1].poll(&mut mailbox, NOOP).result, Poll::Ready(Ok(_))));
    assert!(is_pending(&sends[2].poll(&mut mailbox, WakerId(2))));
    assert_eq!(receive(&mut mailbox), Some(1));
    assert_eq!(receive(&mut mailbox), Some(2));
    assert_eq!(receive(&mut mailbox), Some(3));
}

#[test]
fn parked_sends_get_fresh_names() {
    let (mut mailbox, _) = actor::<u8>();
    let mut names = Vec::new();
    for message in 0..3 {
        let (Submission::Parked(id), _) = mailbox.submit(message) else {
            panic!("an unbound mailbox parks")
        };
        assert!(!names.contains(&id));
        names.push(id);
    }
    let (withdrawn, _) = mailbox.withdraw(names[1], WithdrawalDisposition::Inline);
    assert!(matches!(
        withdrawn,
        Some(WithdrawalOutcome::Withdrawn { message: 1, observed: None })
    ));
    let (again, _) = mailbox.withdraw(names[1], WithdrawalDisposition::Inline);
    assert!(again.is_none(), "a send is withdrawn once");
}

#[test]
fn a_binding_wants_a_fresh_token_of_this_mailbox() {
    let (mut mailbox, _) = actor::<u8>();
    let (mut other, _) = actor::<u8>();
    let foreign: MailboxBindToken = {
        let member = member();
        let mut unrelated: MailboxCell<u8> = MailboxCell::new(member.id.clone(), SLOT + 1);
        unrelated.configure(queue(1))
    };
    assert_eq!(mailbox.bind_verdict(&foreign), Some(BindRefusal::NotConfigured));
    let token = mailbox.configure(queue(1));
    assert_eq!(mailbox.bind_verdict(&foreign), Some(BindRefusal::StaleToken));
    assert_eq!(mailbox.bind_verdict(&token), None);
    assert_eq!(mailbox.configure_kind(ResolvedMailbox::Latest), Some(queue(1)));
    assert_eq!(mailbox.configure_kind(queue(1)), None);
    mailbox.bind(token, incarnation(1));

    let second = other.configure(queue(1));
    assert_eq!(mailbox.bind_verdict(&second), Some(BindRefusal::StillBound));
    for refusal in [
        BindRefusal::NotConfigured,
        BindRefusal::StillBound,
        BindRefusal::StaleToken,
    ] {
        assert!(!refusal.message().is_empty());
    }
}

#[test]
fn closing_an_incarnation_hands_back_its_unread_prefix_and_a_new_token() {
    let (mut mailbox, actor) = bound::<u8>(queue(4));
    assert!(actor.try_send(&mut mailbox, 1).0.is_ok());
    assert!(actor.try_send(&mut mailbox, 2).0.is_ok());
    let (closed, _) = mailbox.close(incarnation(1));
    let closed = closed.expect("the bound incarnation closes");
    let unread: Vec<u8> = closed.payload.queue.iter().map(|kept| kept.message).collect();
    assert_eq!(unread, [1, 2]);
    assert_eq!(receive(&mut mailbox), None, "a closed incarnation reads nothing");

    assert_eq!(mailbox.bind_verdict(&closed.token), None);
    mailbox.bind(closed.token, incarnation(2));
    assert_eq!(mailbox.current_observation(), Some(incarnation(2)));
    assert!(actor.try_send(&mut mailbox, 3).0.is_ok());
    assert_eq!(receive(&mut mailbox), None, "the earlier incarnation stays deaf");
    let receiver = MailboxReceiver::new(incarnation(2));
    assert_eq!(receiver.try_recv(&mut mailbox).0, Some(3));
}

#[test]
fn termination_returns_every_parked_message() {
    let (mut mailbox, actor) = actor::<u8>();
    let mut first = actor.send(1);
    let mut second = actor.send(2);
    assert!(is_pending(&first.poll(&mut mailbox, CALLER)));
    assert!(is_pending(&second.poll(&mut mailbox, OTHER)));
    let mut teardown = mailbox.prepare_termination().expect("the mailbox terminates once");
    let effects = teardown.finish_framework(&mut mailbox);
    assert_eq!(
        effects.wakers,
        [WakerEffect::Wake(CALLER), WakerEffect::Wake(OTHER)]
    );
    for (send, expected) in [(&mut first, 1), (&mut second, 2)] {
        let Poll::Ready(Err(error)) = send.poll(&mut mailbox, NOOP).result else {
            panic!("termination settles a parked send")
        };
        assert_eq!((error.kind, error.message), (SendErrorKind::Terminated, expected));
    }
    assert!(matches!(teardown.finish::<u8>(None), TeardownEnd::Payload(_)));
}

#[test]
fn a_withdrawal_may_beat_the_discharge() {
    let (mut mailbox, actor) = actor::<u8>();
    let mut send = actor.send(7);
    assert!(is_pending(&send.poll(&mut mailbox, CALLER)));
    let mut teardown = mailbox.prepare_termination().expect("the mailbox terminates once");
    let (outcome, _) = send.withdraw(&mut mailbox, WithdrawalDisposition::Inline);
    assert!(matches!(outcome, WithdrawalOutcome::Withdrawn { message: 7, observed: None }));
    let effects = teardown.finish_framework(&mut mailbox);
    assert!(effects.wakers.is_empty(), "nobody waits any longer");
    let TeardownEnd::Resume { panic, disposed } = teardown.finish(Some(3_u8)) else {
        panic!("a panic of the framework is resumed")
    };
    assert_eq!(panic, 3);
    assert!(disposed.queue.is_empty());
}

#[test]
fn a_live_read_stops_at_its_cut() {
    let (mut mailbox, actor) = bound::<u8>(queue(4));
    assert!(actor.try_send(&mut mailbox, 1).0.is_ok());
    let receiver = MailboxReceiver::new(incarnation(1));
    let cut = receiver.accepted_sequence(&mailbox);
    assert!(actor.try_send(&mut mailbox, 2).0.is_ok());
    assert_eq!(receiver.try_recv_live_through(&mut mailbox, cut).0, Some(1));
    assert_eq!(receiver.try_recv_live_through(&mut mailbox, cut).0, None);
    receiver.freeze(&mut mailbox);
    assert_eq!(
        receiver.try_recv_live_through(&mut mailbox, AcceptedSequence(9)).0,
        None,
        "a live read ends with the live phase"
    );
    assert_eq!(receiver.try_recv(&mut mailbox).0, Some(2));
}

#[test]
fn effects_are_flushed_in_their_fixed_order() {
    let (mut mailbox, actor) = bound::<u8>(ResolvedMailbox::Latest);
    assert!(actor.try_send(&mut mailbox, 1).0.is_ok());
    let (_, mut effects) = actor.try_send(&mut mailbox, 2);
    effects.wakers.push(WakerEffect::Wake(CALLER));
    assert!(!effects.is_empty());
    let steps = effects.flush();
    assert!(matches!(steps[0], FlushStep::Pulse));
    assert!(steps
        .iter()
        .any(|step| matches!(step, FlushStep::Wakers(wakers) if wakers.len() == 1)));
    assert!(steps.iter().any(|step| match step {
        FlushStep::Dispose(kept) | FlushStep::DropInline(kept) => {
            kept.len() == 1 && kept[0].message == 1
        }
        _ => false,
    }));
}

#[test]
fn a_timed_send_withdraws_its_message_when_the_budget_ends() {
    let (mut mailbox, actor) = actor::<u8>();
    let mut timed = actor.send_timeout(5, Duration::from_secs(1));
    timed.deadlined.start(Instant::from_nanos(0));
    assert!(matches!(
        timed.deadlined.poll(&mut mailbox, CALLER, false).result,
        Poll::Pending
    ));
    let Poll::Ready(Err(error)) = timed.deadlined.poll(&mut mailbox, CALLER, true).result else {
        panic!("the budget has ended")
    };
    assert_eq!((error.kind, error.message), (SendErrorKind::TimedOut, 5));

    let mut unattempted = actor.send_timeout(6, Duration::zero());
    unattempted.deadlined.start(Instant::from_nanos(0));
    let Poll::Ready(Err(error)) = unattempted.deadlined.poll(&mut mailbox, CALLER, false).result
    else {
        panic!("a zero budget never submits")
    };
    assert_eq!((error.kind, error.message), (SendErrorKind::TimedOut, 6));
}

fn call_env(mailbox: MailboxCell<u8>, message: Option<u8>) -> CallEnv<u8, u16> {
    CallEnv { mailbox, reply: OneShot::new(), message, now: Instant::from_nanos(0) }
}

#[test]
fn a_call_carries_the_reply_of_the_incarnation_that_accepted_it() {
    let (mailbox, actor) = bound::<u8>(queue(1));
    let mut env = call_env(mailbox, Some(4));
    let mut call = actor.call::<u16>(Duration::from_secs(1));
    assert!(call.wants_message());
    call.deadlined.start(env.now);
    assert!(matches!(call.deadlined.poll(&mut env, CALLER, false).result, Poll::Pending));
    assert_eq!(env.message, None, "the request is on its way");
    assert_eq!(call.deadlined.operation.accepted(), Some(incarnation(1)));
    assert_eq!(receive(&mut env.mailbox), Some(4));
    assert!(env.reply.send(400).0.is_none());
    let Poll::Ready(Ok(replied)) = call.deadlined.poll(&mut env, CALLER, false).result else {
        panic!("the reply has arrived")
    };
    assert_eq!((replied.value, replied.incarnation), (400, incarnation(1)));
}

#[test]
fn a_call_without_time_asks_for_no_request() {
    let (mailbox, actor) = bound::<u8>(queue(1));
    let mut env = call_env(mailbox, None);
    let mut call = actor.call::<u16>(Duration::zero());
    assert!(!call.wants_message());
    call.deadlined.start(env.now);
    let Poll::Ready(Err(error)) = call.deadlined.poll(&mut env, CALLER, false).result else {
        panic!("a zero budget never submits")
    };
    assert_eq!(error.kind, CallErrorKind::AcceptanceTimedOut);
    assert_eq!(error.incarnation_observed, Some(incarnation(1)));
    assert_eq!(receive(&mut env.mailbox), None);
}

#[test]
fn a_call_tells_an_unaccepted_request_from_an_unknown_outcome() {
    let (mailbox, actor) = actor::<u8>();
    let mut env = call_env(mailbox, Some(4));
    let mut unaccepted = actor.call::<u16>(Duration::from_secs(1));
    unaccepted.deadlined.start(env.now);
    let Poll::Ready(Err(error)) = unaccepted.deadlined.poll(&mut env, CALLER, true).result else {
        panic!("the budget has ended")
    };
    assert_eq!(error.kind, CallErrorKind::AcceptanceTimedOut);
    assert_eq!(error.actor_id.as_str(), "actor");

    let (mailbox, actor) = bound::<u8>(queue(1));
    let mut env = call_env(mailbox, Some(4));
    let mut unanswered = actor.call::<u16>(Duration::from_secs(1));
    unanswered.deadlined.start(env.now);
    let Poll::Ready(Err(error)) = unanswered.deadlined.poll(&mut env, CALLER, true).result else {
        panic!("the budget has ended")
    };
    assert_eq!(error.kind, CallErrorKind::ResponseTimedOut);
    assert_eq!(error.incarnation_observed, Some(incarnation(1)));
}

#[test]
fn a_call_reports_a_dropped_reply_and_a_terminated_actor() {
    let (mailbox, actor) = bound::<u8>(queue(1));
    let mut env = call_env(mailbox, Some(4));
    let mut dropped = actor.call::<u16>(Duration::from_secs(1));
    dropped.deadlined.start(env.now);
    assert!(matches!(dropped.deadlined.poll(&mut env, CALLER, false).result, Poll::Pending));
    env.reply.drop_sender();
    let Poll::Ready(Err(error)) = dropped.deadlined.poll(&mut env, CALLER, false).result else {
        panic!("the actor dropped its reply")
    };
    assert_eq!(error.kind, CallErrorKind::ReplyDropped);

    let (mut mailbox, actor) = bound::<u8>(queue(1));
    mailbox.prepare_termination().expect("the mailbox terminates once");
    let mut env = call_env(mailbox, Some(9));
    let mut terminated = actor.call::<u16>(Duration::from_secs(1));
    terminated.deadlined.start(env.now);
    let polled = terminated.deadlined.poll(&mut env, CALLER, false);
    let Poll::Ready(Err(error)) = polled.result else {
        panic!("a terminated actor refuses")
    };
    assert_eq!(error.kind, CallErrorKind::Terminated);
    assert_eq!(polled.effects[0].disposed, Some(9), "the request is disposed of");
}

#[test]
fn a_request_whose_construction_overran_the_budget_is_never_submitted() {
    let (mailbox, actor) = bound::<u8>(queue(1));
    let mut env = call_env(mailbox, Some(4));
    let mut call = actor.call::<u16>(Duration::from_nanos(10));
    call.deadlined.start(env.now);
    env.now = Instant::from_nanos(11);
    let polled = call.deadlined.poll(&mut env, CALLER, false);
    let Poll::Ready(Err(error)) = polled.result else {
        panic!("the budget was spent before the request existed")
    };
    assert_eq!(error.kind, CallErrorKind::AcceptanceTimedOut);
    assert_eq!(polled.effects[0].disposed, Some(4));
    assert_eq!(receive(&mut env.mailbox), None);
}

#[test]
fn a_handle_follows_its_member() {
    let mut member = member();
    let actor: ActorRef<u8> = ActorRef::new(&member);
    assert_eq!(actor.id().as_str(), "actor");
    assert_eq!(actor.membership(&member), Membership { lineage: 1, generation: 1 });
    member.rebase(Membership { lineage: 1, generation: 2 });
    assert_eq!(actor.membership(&member), Membership { lineage: 1, generation: 2 });
    assert!(actor == actor.clone());
    let other: ActorRef<u8> = ActorRef::new(&MemberCell::new(
        SLOT + 1,
        ChildId::new("actor".to_string()),
        Membership { lineage: 1, generation: 1 },
    ));
    assert!(actor != other, "a handle is the same only for the same slot");
}
