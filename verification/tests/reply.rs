use shelterwood::identity::{ChildId, Membership};
use shelterwood::mailbox::deadline::DeadlinePhase;
use shelterwood::mailbox::handle::{ActorRef, MemberCell};
use shelterwood::mailbox::operation::{WakerEffect, WakerId};
use shelterwood::mailbox::reply::{OneShot, OneShotClose, OneShotStage, Reply, ReplyPoll};
use shelterwood::mailbox::ReplyError;
use shelterwood::poll::Poll;
use shelterwood::time::{DeadlineBudget, Duration, Instant};

const CALLER: WakerId = WakerId(1);

fn actor() -> ActorRef<u8> {
    ActorRef::new(&MemberCell::new(
        1,
        ChildId::new("actor".to_string()),
        Membership { lineage: 1, generation: 1 },
    ))
}

fn drops_of(wakers: &[WakerEffect], counted: WakerId) -> usize {
    wakers
        .iter()
        .filter(|effect| {
            matches!(effect, WakerEffect::DropInline(waker) | WakerEffect::Dispose(waker)
                if *waker == counted)
        })
        .count()
}

#[test]
fn reply_debug_still_reports_the_derived_unanswered_state() {
    let (reply, receiver, _channel) = actor().reply_channel::<u8>();

    let rendered = format!("{reply:?}");
    assert!(rendered.contains("Reply"));
    // The leading space pins the field name exactly: a field named `unanswered` must not
    // satisfy this assertion.
    assert!(rendered.contains(" answered: false"));

    drop(reply);
    drop(receiver);
}

#[test]
fn reply_halves_preserve_success_drop_and_cancellation_lifecycles() {
    let deadline = DeadlineBudget::new(Duration::from_secs(1));
    let start = Instant::from_nanos(0);

    let (reply, receiver, mut channel) = Reply::channel();
    assert_eq!(reply.send(&mut channel, 7_u8).0, None);
    let mut receive = receiver.recv(deadline);
    receive.deadlined.start(start);
    let polled = receive.deadlined.poll(&mut channel, CALLER, false);
    assert_eq!(polled.result, Poll::Ready(Ok(7)));

    let (reply, receiver, mut channel) = Reply::<u8>::channel();
    reply.abandon(&mut channel);
    let mut receive = receiver.recv(deadline);
    receive.deadlined.start(start);
    let polled = receive.deadlined.poll(&mut channel, CALLER, false);
    assert_eq!(polled.result, Poll::Ready(Err(ReplyError::Dropped)));

    let (reply, _receiver, mut channel) = Reply::<u8>::channel();
    assert_eq!(channel.drop_receiver().0, None);
    assert_eq!(reply.send(&mut channel, 9).0, Some(9), "an unclaimed value comes back");
}

#[test]
fn ready_race_retires_the_reply_caller_waker_before_returning() {
    let (reply, receiver, mut channel) = Reply::channel();
    let mut receive = receiver.recv(DeadlineBudget::new(Duration::from_secs(1)));
    receive.deadlined.start(Instant::from_nanos(0));
    assert_eq!(receive.deadlined.poll(&mut channel, CALLER, false).result, Poll::Pending);
    assert_eq!(reply.send(&mut channel, 7_u8).1.wakers, [WakerEffect::Wake(CALLER)]);
    assert_eq!(
        receive.deadlined.poll(&mut channel, CALLER, false).result,
        Poll::Ready(Ok(7))
    );
    assert_eq!(channel.waker, None, "no caller clone outlives the result");
}

#[test]
fn timeout_arbitration_value_retires_the_reply_caller_waker_before_returning() {
    let mut channel: OneShot<u8> = OneShot::new();
    let mut drops = 0;

    let (polled, effects) = channel.poll_receive(CALLER);
    assert_eq!(polled, Poll::Pending);
    drops += drops_of(&effects.wakers, CALLER);
    assert_eq!(drops, 0);
    // The value is visible before the wake that announces it.
    channel.stage = OneShotStage::Full(9);
    let (closed, effects) = channel.close_and_poll_receive(CALLER);
    assert!(matches!(closed, OneShotClose::Value(9)));
    drops += drops_of(&effects.wakers, CALLER);
    assert_eq!(
        drops, 1,
        "timeout arbitration retires the caller clone before returning the value"
    );
}

#[test]
fn close_retires_the_reply_caller_waker_and_contains_a_hostile_destructor() {
    let mut channel: OneShot<u8> = OneShot::new();
    let (polled, effects) = channel.poll_receive(CALLER);
    assert_eq!(polled, Poll::Pending);
    assert_eq!(drops_of(&effects.wakers, CALLER), 0);

    let effects = channel.close();

    assert_eq!(
        drops_of(&effects.wakers, CALLER),
        1,
        "close retires the caller clone"
    );
    assert_eq!(channel.waker, None);
}

#[test]
fn timeout_arbitration_waits_for_a_winning_send_to_publish() {
    let (_reply, receiver, mut channel) = Reply::<u8>::channel();
    let mut receive = receiver.recv(DeadlineBudget::new(Duration::from_secs(1)));
    receive.deadlined.start(Instant::from_nanos(0));
    assert!(channel.begin_send());
    assert_eq!(receive.deadlined.poll(&mut channel, CALLER, false).result, Poll::Pending);
    assert_eq!(
        receive.deadlined.poll(&mut channel, CALLER, true).result,
        Poll::Pending,
        "a send that has begun wins the arbitration"
    );
    channel.publish(6);
    assert_eq!(
        receive.deadlined.poll(&mut channel, CALLER, false).result,
        Poll::Ready(Ok(6))
    );
}

#[test]
fn an_unanswered_reply_times_out() {
    let (_reply, receiver, mut channel) = Reply::<u8>::channel();
    let mut receive = receiver.recv(DeadlineBudget::new(Duration::from_secs(1)));
    receive.deadlined.start(Instant::from_nanos(0));
    assert_eq!(
        receive.deadlined.poll(&mut channel, CALLER, true).result,
        Poll::Ready(Err(ReplyError::Timeout))
    );
    assert!(!channel.begin_send(), "a closed channel accepts no send");
}

#[test]
fn a_timeout_takes_a_reply_that_arrived_first() {
    let mut channel: OneShot<u8> = OneShot::new();
    assert_eq!(channel.send(3).0, None);
    let (polled, _) = channel.poll_reply(CALLER, DeadlinePhase::TimeoutArbitration);
    assert!(matches!(polled, Poll::Ready(ReplyPoll::Value(3))));
}

#[test]
fn a_dropped_receiver_hands_back_an_unread_value() {
    let mut channel: OneShot<u8> = OneShot::new();
    assert_eq!(channel.send(3).0, None);
    assert_eq!(channel.drop_receiver().0, Some(3));
}
