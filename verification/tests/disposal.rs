use shelterwood::poll::Poll;
use shelterwood::raw::disposal::{release, Caught, CatchUnwindFuture, Contained, PanicPayload};

const POLL: PanicPayload = PanicPayload(1);
const DESTRUCTOR: PanicPayload = PanicPayload(2);

#[test]
fn completed_future_drop_panic_wins_and_output_drop_is_contained() {
    let mut boundary = CatchUnwindFuture::new("future");
    let polled = Caught::Ready("output");

    assert_eq!(boundary.retire(&polled), Some("future"));
    let released = release(polled, Some(DESTRUCTOR));

    assert_eq!(released.result, Poll::Ready(Err(DESTRUCTOR)));
    assert_eq!(released.discarded_output, Some("output"));
    assert_eq!(released.discarded_panic, None);
    assert_eq!(boundary.retire(&Caught::Ready("output")), None, "dropped exactly once");
}

#[test]
fn poll_panic_wins_and_future_drop_panic_is_contained() {
    let mut boundary = CatchUnwindFuture::new("future");
    let polled: Caught<&str> = Caught::Panicked(POLL);

    assert_eq!(boundary.retire(&polled), Some("future"));
    let released = release(polled, Some(DESTRUCTOR));

    assert_eq!(released.result, Poll::Ready(Err(POLL)));
    assert_eq!(released.discarded_panic, Some(DESTRUCTOR));
    assert_eq!(released.discarded_output, None);
}

#[test]
fn a_pending_future_is_kept() {
    let mut boundary = CatchUnwindFuture::new("future");
    let polled: Caught<&str> = Caught::Pending;
    assert_eq!(boundary.retire(&polled), None);
    let released = release(polled, None);
    assert_eq!(released.result, Poll::Pending);
    assert_eq!(boundary.retire(&Caught::Ready("output")), Some("future"));
}

#[test]
fn a_clean_completion_hands_out_its_output() {
    let released = release(Caught::Ready("output"), None);
    assert_eq!(released.result, Poll::Ready(Ok("output")));
    assert_eq!(released.discarded_output, None);
    assert_eq!(released.discarded_panic, None);
}

#[test]
fn a_contained_value_is_lent_and_handed_back() {
    let contained = Contained::new(5);
    assert_eq!(contained.get(), &5);
    assert_eq!(contained.into_inner(), 5);
}
