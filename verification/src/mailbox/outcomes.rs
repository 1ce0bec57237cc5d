//! How sends, replies and calls end, said of what the caller gets back.

use crate::identity::Incarnation;
use crate::mailbox::call::{
    call_reports, CallEffects, CallEnv, CallOperation, CallStage, CallVerdict,
};
use crate::mailbox::cell::MailboxCell;
use crate::mailbox::deadline::{DeadlineOperation, DeadlinePhase, Deadlined};
use crate::mailbox::delivery::{
    law_a_decided_send_reports_its_decision, law_a_parked_send_comes_back,
    law_a_submission_is_accepted_parked_or_returned, law_polling_registers_the_waker,
};
use crate::mailbox::futures::{
    cancelled_message, reports, timed_out_verdict, SendEffects, SendFutureState, SendVerdict,
    TimedSend,
};
use crate::mailbox::model::MailboxModel;
use crate::mailbox::operation::{
    OperationOutcome, SendOperation, WakerEffect, WakerId, WithdrawalDisposition, WithdrawalOutcome,
};
use crate::mailbox::reply::{
    retired, woken, OneShot, OneShotClose, OneShotStage, ReplyEffects, ReplyOperation, ReplyPoll,
};
use crate::mailbox::state::{Phase, WaiterId};
use crate::mailbox::{CallError, CallErrorKind, Replied, ReplyError, SendError, SendErrorKind};
use crate::policy::ResolvedMailbox;
use crate::poll::Poll;
use crate::table::{has_key, index_of, lemma_index_is_unique};
use crate::time::{Deadline, Instant, MAX_INSTANT_NANOS};
use vstd::prelude::*;

verus! {

/// Whether a mailbox takes a new message at once: its incarnation is live,
/// nobody is parked before it, and a queue is not full.
pub open spec fn takes_at_once<M>(mailbox: MailboxModel<M>) -> bool {
    mailbox.phase matches Phase::Bound(binding) && match binding.kind {
        ResolvedMailbox::Queue(capacity) => mailbox.waiters.len() == 0 && mailbox.queue.len()
            < capacity@,
        ResolvedMailbox::Latest => true,
    }
}

/// The first poll of a send submits it: a mailbox that takes it at once ends
/// the send as accepted by its incarnation, a terminated one returns the
/// message with the last incarnation, and any other parks it last in line with
/// the caller's waker.
pub proof fn law_the_first_poll_submits<M>(
    message: M,
    mailbox: MailboxModel<M>,
    waker: WakerId,
)
    requires
        mailbox.wf(),
        mailbox.accepted < u64::MAX,
        mailbox.last_id < u64::MAX,
    ensures
        ({
            let step = SendFutureState::Immediate(message).step(mailbox, waker);
            let id = (mailbox.last_id + 1) as u64;
            &&& takes_at_once(mailbox) ==> {
                let incarnation = mailbox.phase->Bound_0.incarnation;
                &&& step.verdict == Some(SendVerdict::<M>::Accepted(incarnation))
                &&& step.state == SendFutureState::<M>::Sent(incarnation)
                &&& step.mailbox.accepted == mailbox.accepted + 1
                &&& step.mailbox.waiters == mailbox.waiters
                &&& step.effects.pulse
            }
            &&& mailbox.phase matches Phase::Terminal(last) ==> {
                &&& step.verdict == Some(
                    SendVerdict::Failed {
                        observed: last,
                        message,
                        kind: SendErrorKind::Terminated,
                    },
                )
                &&& step.state is Done
                &&& step.mailbox == mailbox
            }
            &&& !takes_at_once(mailbox) && !(mailbox.phase is Terminal) ==> {
                &&& step.verdict is None
                &&& step.state == SendFutureState::<M>::Parked(WaiterId(id))
                &&& step.cloned
                &&& step.mailbox.queue == mailbox.queue
                &&& step.mailbox.latest == mailbox.latest
                &&& step.mailbox.accepted == mailbox.accepted
                &&& step.mailbox.phase == mailbox.phase
                &&& step.mailbox.settled == mailbox.settled
                &&& step.mailbox.last_id == id
                &&& step.mailbox.waiters.len() == mailbox.waiters.len() + 1
                &&& step.mailbox.waiters.drop_last() == mailbox.waiters
                &&& step.mailbox.waiters.last().0 == id
                &&& step.mailbox.waiters.last().1.waker == Some(waker)
                &&& step.mailbox.waiters.last().1.outcome matches OperationOutcome::Waiting {
                    message: kept,
                    ..
                } && kept == message
            }
        }),
{
    law_a_submission_is_accepted_parked_or_returned(mailbox, message);
    if !takes_at_once(mailbox) && !(mailbox.phase is Terminal) {
        let after = mailbox.submitted(message);
        let last = after.waiters.len() - 1;
        assert forall|i: int, j: int| 0 <= i < j < after.waiters.len() implies after.waiters[i].0
            < after.waiters[j].0 by {
            if j == last {
                assert(mailbox.waiters[i].0 <= mailbox.last_id);
            }
        }
        lemma_index_is_unique(after.waiters, last);
        let step = SendFutureState::Immediate(message).step(mailbox, waker);
        assert(step.mailbox.waiters.drop_last() =~= mailbox.waiters);
    }
}

/// Polling a parked send keeps it waiting in its place, now for the polling
/// waker; the waker it waited for before is destroyed, and the caller's is
/// cloned only where it was not registered already.
pub proof fn law_a_parked_send_goes_on_waiting<M>(
    mailbox: MailboxModel<M>,
    index: int,
    waker: WakerId,
)
    requires
        mailbox.wf(),
        0 <= index < mailbox.waiters.len(),
    ensures
        ({
            let (id, send) = mailbox.waiters[index];
            let step = SendFutureState::<M>::Parked(WaiterId(id)).step(mailbox, waker);
            &&& step.verdict is None
            &&& step.state == SendFutureState::<M>::Parked(WaiterId(id))
            &&& step.mailbox == (MailboxModel::<M> {
                waiters: mailbox.waiters.update(
                    index,
                    (id, SendOperation { outcome: send.outcome, waker: Some(waker) }),
                ),
                ..mailbox
            })
            &&& step.cloned == (send.waker != Some(waker))
            &&& !step.effects.pulse && step.effects.displaced.len() == 0
            &&& send.waker is None || send.waker == Some(waker) ==> step.effects.wakers.len() == 0
            &&& send.waker matches Some(stale) ==> (stale != waker ==> step.effects.wakers == seq![
                WakerEffect::DropInline(stale),
            ])
        }),
{
    let (id, send) = mailbox.waiters[index];
    let step = SendFutureState::<M>::Parked(WaiterId(id)).step(mailbox, waker);
    lemma_index_is_unique(mailbox.waiters, index);
    law_polling_registers_the_waker(mailbox, index, waker);
    assert(send.is_waiting());
    if send.waker == Some(waker) {
        assert(mailbox.waiters.update(
            index,
            (id, SendOperation { outcome: send.outcome, waker: Some(waker) }),
        ) =~= mailbox.waiters);
    }
}

/// Polling a send that was decided meanwhile ends it with that decision: the
/// accepting incarnation, or the message back from a terminated mailbox. The
/// mailbox forgets that send alone.
pub proof fn law_a_decided_send_ends<M>(mailbox: MailboxModel<M>, index: int, waker: WakerId)
    requires
        mailbox.wf(),
        0 <= index < mailbox.settled.len(),
    ensures
        ({
            let (id, send) = mailbox.settled[index];
            let step = SendFutureState::<M>::Parked(WaiterId(id)).step(mailbox, waker);
            &&& match send.outcome {
                OperationOutcome::Accepted(incarnation) => {
                    &&& step.verdict == Some(SendVerdict::<M>::Accepted(incarnation))
                    &&& step.state == SendFutureState::<M>::Sent(incarnation)
                },
                OperationOutcome::Terminated { message, final_incarnation } => {
                    &&& step.verdict == Some(
                        SendVerdict::Failed {
                            observed: final_incarnation,
                            message,
                            kind: SendErrorKind::Terminated,
                        },
                    )
                    &&& step.state is Done
                },
                _ => false,
            }
            &&& step.mailbox == (MailboxModel::<M> {
                settled: mailbox.settled.remove(index),
                ..mailbox
            })
            &&& !step.cloned
        }),
{
    law_a_decided_send_reports_its_decision(mailbox, index);
    lemma_settled_operation(mailbox, index);
}

proof fn lemma_settled_operation<M>(mailbox: MailboxModel<M>, index: int)
    requires
        mailbox.wf(),
        0 <= index < mailbox.settled.len(),
    ensures
        mailbox.operation(mailbox.settled[index].0) == Some(mailbox.settled[index].1),
        mailbox.live(mailbox.settled[index].0),
{
    let id = mailbox.settled[index].0;
    lemma_index_is_unique(mailbox.settled, index);
    if has_key(mailbox.waiters, id) {
        let w = index_of(mailbox.waiters, id);
        assert(mailbox.settled[index].0 < mailbox.waiters[w].0);
    }
    if has_key(mailbox.detached, id) {
        let d = index_of(mailbox.detached, id);
        assert(mailbox.settled[index].0 < mailbox.detached[d].0);
    }
}

/// Withdrawing a send that was never polled gives its message back with the
/// incarnation there is now, and leaves the mailbox alone; a send already
/// accepted cannot be withdrawn. Cancelling either yields the message exactly
/// where it was not accepted.
pub proof fn law_withdrawal_returns_what_was_not_accepted<M>(
    mailbox: MailboxModel<M>,
    message: M,
    incarnation: Incarnation,
    disposition: WithdrawalDisposition,
)
    ensures
        ({
            let fresh = SendFutureState::Immediate(message);
            let sent = SendFutureState::<M>::Sent(incarnation);
            &&& fresh.withdrawal(mailbox) == Some(
                WithdrawalOutcome::Withdrawn {
                    message,
                    observed: match mailbox.phase {
                        Phase::Bound(binding) => Some(binding.incarnation),
                        Phase::Frozen(binding) => Some(binding.incarnation),
                        _ => None,
                    },
                },
            )
            &&& fresh.withdrawn_from(mailbox) == mailbox
            &&& fresh.withdrawal_wakers(mailbox, disposition).len() == 0
            &&& cancelled_message(fresh.withdrawal(mailbox)) == Some(message)
            &&& sent.withdrawal(mailbox) == Some(WithdrawalOutcome::<M>::Accepted(incarnation))
            &&& sent.withdrawn_from(mailbox) == mailbox
            &&& cancelled_message(sent.withdrawal(mailbox)) is None
        }),
{
}

/// Cancelling a parked send takes it out of line and yields its message.
pub proof fn law_cancelling_a_parked_send_yields_its_message<M>(
    mailbox: MailboxModel<M>,
    index: int,
)
    requires
        mailbox.wf(),
        0 <= index < mailbox.waiters.len(),
    ensures
        ({
            let (id, send) = mailbox.waiters[index];
            let state = SendFutureState::<M>::Parked(WaiterId(id));
            &&& send.outcome matches OperationOutcome::Waiting { message, .. }
            &&& cancelled_message(state.withdrawal(mailbox)) == Some(message)
            &&& state.withdrawn_from(mailbox) == (MailboxModel::<M> {
                waiters: mailbox.waiters.remove(index),
                ..mailbox
            })
        }),
{
    assert(mailbox.waiters[index].1.is_waiting());
    law_a_parked_send_comes_back(mailbox, index, WithdrawalDisposition::Isolated);
}

/// Withdrawing a parked send destroys the waker it registered, in place or on
/// the disposal lane as asked; withdrawing any other touches no waker.
pub proof fn law_withdrawal_releases_the_waker<M>(
    mailbox: MailboxModel<M>,
    index: int,
    disposition: WithdrawalDisposition,
    message: M,
    incarnation: Incarnation,
)
    requires
        mailbox.wf(),
        0 <= index < mailbox.waiters.len(),
    ensures
        ({
            let (id, send) = mailbox.waiters[index];
            let wakers = SendFutureState::<M>::Parked(WaiterId(id)).withdrawal_wakers(
                mailbox,
                disposition,
            );
            &&& send.waker is None ==> wakers.len() == 0
            &&& send.waker matches Some(waker) ==> wakers == seq![
                match disposition {
                    WithdrawalDisposition::Inline => WakerEffect::DropInline(waker),
                    WithdrawalDisposition::Isolated => WakerEffect::Dispose(waker),
                },
            ]
        }),
        SendFutureState::Immediate(message).withdrawal_wakers(mailbox, disposition).len() == 0,
        SendFutureState::<M>::Sent(incarnation).withdrawal_wakers(mailbox, disposition).len() == 0,
{
    law_a_parked_send_comes_back(mailbox, index, disposition);
}

/// What ending a send for want of time reports: a timeout only where it was
/// never accepted and its mailbox lives on, with the message and the
/// incarnation seen; else the decision that came first.
pub proof fn law_a_timeout_yields_to_a_decision<M>(
    message: M,
    observed: Option<Incarnation>,
    incarnation: Incarnation,
)
    ensures
        timed_out_verdict(WithdrawalOutcome::Withdrawn { message, observed }) == (
        SendVerdict::Failed { observed, message, kind: SendErrorKind::TimedOut }),
        timed_out_verdict(WithdrawalOutcome::<M>::Accepted(incarnation)) == SendVerdict::<
            M,
        >::Accepted(incarnation),
        timed_out_verdict(WithdrawalOutcome::Terminated { message, observed }) == (
        SendVerdict::Failed { observed, message, kind: SendErrorKind::Terminated }),
        cancelled_message(Some(WithdrawalOutcome::Withdrawn { message, observed })) == Some(
            message,
        ),
        cancelled_message(Some(WithdrawalOutcome::Terminated { message, observed })) == Some(
            message,
        ),
        cancelled_message(Some(WithdrawalOutcome::<M>::Accepted(incarnation))) is None,
{
}

/// Before its timer fires a timed send never reports a timeout, and one still
/// parked stays pending in its place.
pub proof fn law_a_timed_send_waits_for_its_timer<M>(
    send: TimedSend<M>,
    env: MailboxCell<M>,
    waker: WakerId,
    budget: Deadline,
    after: TimedSend<M>,
    env_after: MailboxCell<M>,
    result: Poll<Result<Incarnation, SendError<M>>>,
    effects: SendEffects<M>,
)
    requires
        send.pollable(env),
        send.pass(
            env,
            waker,
            budget,
            DeadlinePhase::InitialAttempt,
            after,
            env_after,
            result,
            effects,
        ),
    ensures
        result matches Poll::Ready(Err(error)) ==> error.kind == SendErrorKind::Terminated,
        send.send.state matches SendFutureState::Parked(id) ==> (forall|i: int|
            #![trigger env@.waiters[i]]
            0 <= i < env@.waiters.len() && env@.waiters[i].0 == id.0 ==> {
                &&& result is Pending
                &&& after.send.state == SendFutureState::<M>::Parked(id)
                &&& env_after@.waiters.len() == env@.waiters.len()
                &&& env_after@.waiters[i].0 == id.0
                &&& env_after@.waiters[i].1.outcome == env@.waiters[i].1.outcome
                &&& env_after@.waiters[i].1.waker == Some(waker)
                &&& effects.cloned == (env@.waiters[i].1.waker != Some(waker))
            }),
{
    if let SendFutureState::Parked(id) = send.send.state {
        assert forall|i: int| #![trigger env@.waiters[i]]
            0 <= i < env@.waiters.len() && env@.waiters[i].0 == id.0 implies {
            &&& result is Pending
            &&& after.send.state == SendFutureState::<M>::Parked(id)
            &&& env_after@.waiters.len() == env@.waiters.len()
            &&& env_after@.waiters[i].0 == id.0
            &&& env_after@.waiters[i].1.outcome == env@.waiters[i].1.outcome
            &&& env_after@.waiters[i].1.waker == Some(waker)
            &&& effects.cloned == (env@.waiters[i].1.waker != Some(waker))
        } by {
            law_a_parked_send_goes_on_waiting(env@, i, waker);
        }
    }
}

/// A timed send's first attempt submits its message: a mailbox that takes it at
/// once holds it then, the send ends as accepted, and watchers are told; a
/// terminated one gives the message back. So it does when the timer has fired.
pub proof fn law_a_timed_send_submits_at_its_first_attempt<M>(
    send: TimedSend<M>,
    env: MailboxCell<M>,
    message: M,
    waker: WakerId,
    budget: Deadline,
    phase: DeadlinePhase,
    after: TimedSend<M>,
    env_after: MailboxCell<M>,
    result: Poll<Result<Incarnation, SendError<M>>>,
    effects: SendEffects<M>,
)
    requires
        send.pollable(env),
        send.send.state == SendFutureState::Immediate(message),
        send.pass(env, waker, budget, phase, after, env_after, result, effects),
    ensures
        takes_at_once(env@) ==> {
            let incarnation = env@.phase->Bound_0.incarnation;
            &&& result == Poll::Ready(Ok::<Incarnation, SendError<M>>(incarnation))
            &&& env_after@ == env@.submitted(message)
            &&& env_after@.accepted == env@.accepted + 1
            &&& after.send.state == SendFutureState::<M>::Sent(incarnation)
            &&& effects.mailbox.pulse
            &&& !effects.cloned
        },
        env@.phase matches Phase::Terminal(last) ==> {
            &&& result matches Poll::Ready(Err(error))
            &&& error.kind == SendErrorKind::Terminated
            &&& error.message == message
            &&& error.incarnation_observed == last
            &&& env_after@ == env@
            &&& after.send.state is Done
        },
        !takes_at_once(env@) && !(env@.phase is Terminal) && phase is InitialAttempt ==> {
            &&& result is Pending
            &&& env_after@.waiters.drop_last() == env@.waiters
            &&& env_after@.waiters.last().1.outcome matches OperationOutcome::Waiting {
                message: kept,
                ..
            } && kept == message
            &&& env_after@.waiters.last().1.waker == Some(waker)
            &&& after.send.state == SendFutureState::<M>::Parked(
                WaiterId(env_after@.waiters.last().0),
            )
            &&& effects.cloned
        },
{
    law_the_first_poll_submits(message, env@, waker);
    assert(effects.mailbox@.pulse == effects.mailbox.pulse);
}

/// A timed send that was decided meanwhile ends with that decision at its next
/// attempt, and its mailbox forgets it.
pub proof fn law_a_decided_timed_send_ends<M>(
    send: TimedSend<M>,
    env: MailboxCell<M>,
    index: int,
    waker: WakerId,
    budget: Deadline,
    phase: DeadlinePhase,
    after: TimedSend<M>,
    env_after: MailboxCell<M>,
    result: Poll<Result<Incarnation, SendError<M>>>,
    effects: SendEffects<M>,
)
    requires
        send.pollable(env),
        0 <= index < env@.settled.len(),
        send.send.state == SendFutureState::<M>::Parked(WaiterId(env@.settled[index].0)),
        send.pass(env, waker, budget, phase, after, env_after, result, effects),
    ensures
        env_after@ == (MailboxModel::<M> { settled: env@.settled.remove(index), ..env@ }),
        env@.settled[index].1.outcome matches OperationOutcome::Accepted(incarnation) ==> {
            &&& result == Poll::Ready(Ok::<Incarnation, SendError<M>>(incarnation))
            &&& after.send.state == SendFutureState::<M>::Sent(incarnation)
        },
        env@.settled[index].1.outcome is Terminated ==> {
            &&& result matches Poll::Ready(Err(error))
            &&& error.kind == SendErrorKind::Terminated
            &&& error.message == env@.settled[index].1.outcome->Terminated_message
            &&& after.send.state is Done
        },
        !effects.cloned,
        !effects.mailbox.pulse,
        effects.mailbox.wakers@.len() == 0,
{
    law_a_decided_send_ends(env@, index, waker);
    lemma_settled_operation(env@, index);
    assert(effects.mailbox@.pulse == effects.mailbox.pulse);
    assert(effects.mailbox@.wakers == effects.mailbox.wakers@);
}

/// Once its timer has fired a timed send always ends: one still parked times
/// out with its own message and leaves the line, and one that was accepted
/// meanwhile succeeds all the same.
pub proof fn law_an_expired_send_ends<M>(
    send: TimedSend<M>,
    env: MailboxCell<M>,
    waker: WakerId,
    budget: Deadline,
    after: TimedSend<M>,
    env_after: MailboxCell<M>,
    result: Poll<Result<Incarnation, SendError<M>>>,
    effects: SendEffects<M>,
)
    requires
        send.pollable(env),
        send.pass(
            env,
            waker,
            budget,
            DeadlinePhase::TimeoutArbitration,
            after,
            env_after,
            result,
            effects,
        ),
    ensures
        result is Ready,
        send.send.state matches SendFutureState::Parked(id) ==> (forall|i: int|
            #![trigger env@.waiters[i]]
            0 <= i < env@.waiters.len() && env@.waiters[i].0 == id.0 ==> {
                &&& result matches Poll::Ready(Err(error))
                &&& error.kind == SendErrorKind::TimedOut
                &&& error.message == env@.waiters[i].1.outcome->Waiting_message
                &&& error.actor_id@ == env@.actor
                &&& after.send.state is Done
                &&& env_after@ == (MailboxModel::<M> {
                    waiters: env@.waiters.remove(i),
                    ..env@
                })
                &&& effects.mailbox.wakers@.len() > 0
                &&& effects.mailbox.wakers@.last() == WakerEffect::DropInline(waker)
            }),
        send.send.state matches SendFutureState::Parked(id) ==> (forall|i: int|
            #![trigger env@.settled[i]]
            0 <= i < env@.settled.len() && env@.settled[i].0 == id.0 ==> match env@.settled[i].1.outcome {
                OperationOutcome::Accepted(incarnation) => result == Poll::Ready(
                    Ok::<Incarnation, SendError<M>>(incarnation),
                ),
                OperationOutcome::Terminated { message, final_incarnation } => {
                    &&& result matches Poll::Ready(Err(error))
                    &&& error.kind == SendErrorKind::Terminated
                    &&& error.message == message
                    &&& error.incarnation_observed == final_incarnation
                },
                _ => false,
            }),
        send.send.state matches SendFutureState::Sent(incarnation) ==> result == Poll::Ready(
            Ok::<Incarnation, SendError<M>>(incarnation),
        ),
{
    if let SendFutureState::Parked(id) = send.send.state {
        let step = send.send.state.step(env@, waker);
        assert forall|i: int| #![trigger env@.waiters[i]]
            0 <= i < env@.waiters.len() && env@.waiters[i].0 == id.0 implies {
            &&& result matches Poll::Ready(Err(error))
            &&& error.kind == SendErrorKind::TimedOut
            &&& error.message == env@.waiters[i].1.outcome->Waiting_message
            &&& error.actor_id@ == env@.actor
            &&& after.send.state is Done
            &&& env_after@ == (MailboxModel::<M> { waiters: env@.waiters.remove(i), ..env@ })
            &&& effects.mailbox.wakers@.len() > 0
            &&& effects.mailbox.wakers@.last() == WakerEffect::DropInline(waker)
        } by {
            assert(effects.mailbox@.wakers == effects.mailbox.wakers@);
            law_a_parked_send_goes_on_waiting(env@, i, waker);
            lemma_registered_wf(env@, i, waker);
            law_a_parked_send_comes_back(step.mailbox, i, WithdrawalDisposition::Inline);
            assert(env@.waiters[i].1.is_waiting());
            assert(step.mailbox.waiters.remove(i) =~= env@.waiters.remove(i));
        }
        assert forall|i: int| #![trigger env@.settled[i]]
            0 <= i < env@.settled.len() && env@.settled[i].0 == id.0 implies match env@.settled[i].1.outcome {
            OperationOutcome::Accepted(incarnation) => result == Poll::Ready(
                Ok::<Incarnation, SendError<M>>(incarnation),
            ),
            OperationOutcome::Terminated { message, final_incarnation } => {
                &&& result matches Poll::Ready(Err(error))
                &&& error.kind == SendErrorKind::Terminated
                &&& error.message == message
                &&& error.incarnation_observed == final_incarnation
            },
            _ => false,
        } by {
            law_a_decided_send_ends(env@, i, waker);
        }
    }
}

proof fn lemma_registered_wf<M>(mailbox: MailboxModel<M>, index: int, waker: WakerId)
    requires
        mailbox.wf(),
        0 <= index < mailbox.waiters.len(),
    ensures
        (MailboxModel::<M> {
            waiters: mailbox.waiters.update(
                index,
                (
                    mailbox.waiters[index].0,
                    SendOperation { outcome: mailbox.waiters[index].1.outcome, waker: Some(waker) },
                ),
            ),
            ..mailbox
        }).wf(),
{
    let row = (
        mailbox.waiters[index].0,
        SendOperation { outcome: mailbox.waiters[index].1.outcome, waker: Some(waker) },
    );
    let waiters = mailbox.waiters.update(index, row);
    assert(mailbox.waiters[index].1.is_waiting());
    assert forall|i: int| 0 <= i < waiters.len() implies (#[trigger] waiters[i]).1.is_waiting() by {
        assert(mailbox.waiters[i].1.is_waiting());
    }
    assert forall|i: int, j: int| 0 <= i < j < waiters.len() implies waiters[i].0
        < waiters[j].0 by {
        assert(mailbox.waiters[i].0 < mailbox.waiters[j].0);
    }
    assert forall|i: int| 0 <= i < waiters.len() implies waiters[i].0 <= mailbox.last_id by {
        assert(mailbox.waiters[i].0 <= mailbox.last_id);
    }
    assert forall|i: int, j: int| #![trigger mailbox.settled[i], waiters[j]]
        0 <= i < mailbox.settled.len() && 0 <= j < waiters.len() implies mailbox.settled[i].0
        < waiters[j].0 by {
        assert(mailbox.settled[i].0 < mailbox.waiters[j].0);
    }
}

/// A send with no time at all is never submitted: its message comes back as
/// timed out and the mailbox stays as it was.
pub proof fn law_a_send_without_time_is_not_submitted<M>(
    send: TimedSend<M>,
    env: MailboxCell<M>,
    message: M,
    after: TimedSend<M>,
    env_after: MailboxCell<M>,
    output: Result<Incarnation, SendError<M>>,
    effects: SendEffects<M>,
)
    requires
        send.send.state == SendFutureState::Immediate(message),
        send.cut(env, after, env_after, output, effects),
    ensures
        env_after@ == env@,
        output matches Err(error) && {
            &&& error.kind == SendErrorKind::TimedOut
            &&& error.message == message
            &&& error.actor_id@ == env@.actor
            &&& error.incarnation_observed == match env@.phase {
                Phase::Bound(binding) => Some(binding.incarnation),
                Phase::Frozen(binding) => Some(binding.incarnation),
                _ => None,
            }
        },
        after.send.state is Done,
{
}

/// What polling a reply channel comes to. A value there is handed out and a
/// lost sender reported, before and after the timer fired. Otherwise the poll
/// waits with the caller's waker registered, except that after the timer it
/// ends an empty channel, which is then closed.
pub proof fn law_a_reply_poll_goes_by_the_channel<T>(
    channel: OneShot<T>,
    waker: WakerId,
    phase: DeadlinePhase,
)
    requires
        !(channel.stage is Spent),
    ensures
        ({
            let step = channel.reply_step(waker, phase);
            match channel.stage {
                OneShotStage::Full(value) => {
                    &&& step.result == Poll::Ready(ReplyPoll::Value(value))
                    &&& step.channel.stage is Spent
                    &&& step.channel.closed == channel.closed
                    &&& !step.cloned
                },
                OneShotStage::SenderGone => {
                    &&& step.result == Poll::<ReplyPoll<T>>::Ready(ReplyPoll::SenderClosed)
                    &&& step.channel.stage is SenderGone
                    &&& step.channel.closed == channel.closed
                    &&& !step.cloned
                },
                OneShotStage::Sending => {
                    &&& step.result is Pending
                    &&& step.channel == (OneShot::<T> {
                        waker: Some(waker),
                        closed: channel.closed || phase is TimeoutArbitration,
                        ..channel
                    })
                    &&& step.cloned == (channel.waker != Some(waker))
                },
                _ => if phase is InitialAttempt {
                    &&& step.result is Pending
                    &&& step.channel == (OneShot::<T> { waker: Some(waker), ..channel })
                    &&& step.cloned == (channel.waker != Some(waker))
                } else {
                    &&& step.result == Poll::<ReplyPoll<T>>::Ready(ReplyPoll::TimedOut)
                    &&& step.channel.stage is Empty
                    &&& step.channel.closed
                    &&& step.channel.waker is None
                },
            }
        }),
        ({
            let step = channel.reply_step(waker, phase);
            channel.waker matches Some(stale) ==> (step.channel.waker != Some(stale)
                ==> step.wakers.len() > 0 && step.wakers[0] == WakerEffect::DropInline(stale))
        }),
{
}

/// A waiting receiver is told whatever becomes of its reply: sending a value,
/// publishing one and losing the sender each wake exactly the waker that is
/// registered, and a value lands unless the receiver had closed the channel.
pub proof fn law_a_sent_value_lands_in_an_open_channel<T>(channel: OneShot<T>, value: T)
    ensures
        !channel.closed ==> channel.after_send(value).stage == OneShotStage::Full(value),
        channel.closed ==> channel.after_send(value).stage is SenderGone,
        channel.after_send(value).closed == channel.closed,
        channel.after_send(value).waker is None,
        channel.waker is None ==> woken(channel.waker).len() == 0,
        channel.waker matches Some(waker) ==> woken(channel.waker) == seq![
            WakerEffect::Wake(waker),
        ],
        channel.waker is None ==> retired(channel.waker).len() == 0,
        channel.waker matches Some(waker) ==> retired(channel.waker) == seq![
            WakerEffect::DropInline(waker),
        ],
        OneShot::<T>::fresh().stage is Empty,
        !OneShot::<T>::fresh().closed,
        OneShot::<T>::fresh().waker is None,
{
}

/// Closing while polling lets a value that arrived win, reports a lost sender,
/// waits for a send that has begun, and otherwise leaves a channel that no send
/// can enter any more. The channel is closed in every case.
pub proof fn law_closing_lets_a_value_win<T>(channel: OneShot<T>, waker: WakerId)
    requires
        !(channel.stage is Spent),
    ensures
        channel.close_step(waker).channel.closed,
        channel.stage matches OneShotStage::Full(value) ==> channel.close_step(waker).result
            == OneShotClose::Value(value),
        channel.stage is SenderGone ==> channel.close_step(waker).result is SenderClosed,
        channel.stage is Sending ==> channel.close_step(waker).result is Pending
            && channel.close_step(waker).channel.stage is Sending && channel.close_step(
            waker,
        ).channel.waker == Some(waker),
        channel.stage is Empty ==> channel.close_step(waker).result is Empty
            && channel.close_step(waker).channel.waker is None,
        channel.stage matches OneShotStage::Full(value) ==> channel.receive_step(waker).result
            == Poll::Ready(Some(value)) && channel.receive_step(waker).channel.stage is Spent,
        channel.stage is SenderGone ==> channel.receive_step(waker).result == Poll::<
            Option<T>,
        >::Ready(None),
        channel.stage is Empty || channel.stage is Sending ==> channel.receive_step(waker).result
            is Pending && channel.receive_step(waker).channel == (OneShot::<T> {
            waker: Some(waker),
            ..channel
        }),
{
}

/// What receiving a reply gives the caller: the value where there is one, that
/// the reply was dropped where its sender is gone, and a timeout only once the
/// timer fired on a channel no send had entered.
pub proof fn law_a_receive_reports_its_channel<T>(
    receive: ReplyOperation<T>,
    env: OneShot<T>,
    waker: WakerId,
    budget: Deadline,
    phase: DeadlinePhase,
    after: ReplyOperation<T>,
    env_after: OneShot<T>,
    result: Poll<Result<T, ReplyError>>,
    effects: ReplyEffects,
)
    requires
        receive.pollable(env),
        receive.pass(env, waker, budget, phase, after, env_after, result, effects),
    ensures
        env.stage matches OneShotStage::Full(value) ==> result == Poll::Ready(
            Ok::<T, ReplyError>(value),
        ),
        env.stage is SenderGone ==> result == Poll::Ready(Err::<T, ReplyError>(ReplyError::Dropped)),
        env.stage is Sending ==> result is Pending && env_after.stage is Sending
            && env_after.waker == Some(waker),
        env.stage is Empty && phase is InitialAttempt ==> result is Pending && env_after == (
        OneShot::<T> { waker: Some(waker), ..env }),
        env.stage is Empty && phase is TimeoutArbitration ==> result == Poll::Ready(
            Err::<T, ReplyError>(ReplyError::Timeout),
        ) && env_after.closed,
        result is Pending ==> effects.cloned == (env.waker != Some(waker)),
{
    law_a_reply_poll_goes_by_the_channel(env, waker, phase);
}

/// A receive with no time at all does not look at the channel: it closes it and
/// times out.
pub proof fn law_a_receive_without_time_times_out<T>(
    receive: ReplyOperation<T>,
    env: OneShot<T>,
    after: ReplyOperation<T>,
    env_after: OneShot<T>,
    output: Result<T, ReplyError>,
    effects: ReplyEffects,
)
    requires
        receive.cut(env, after, env_after, output, effects),
    ensures
        output == Err::<T, ReplyError>(ReplyError::Timeout),
        env_after.closed,
        env_after.waker is None,
        env_after.stage == env.stage,
        !effects.cloned,
        env.waker is None ==> effects.wakers@.len() == 0,
        env.waker matches Some(waker) ==> effects.wakers@ == seq![WakerEffect::DropInline(waker)],
{
}

/// While its timer has not fired a call never fails for its reply, and fails
/// for its acceptance only where building the request overran the budget: its
/// deadline then lay strictly in the past.
pub proof fn law_an_unexpired_call_does_not_time_out<M, T>(
    call: CallOperation<M, T>,
    env: CallEnv<M, T>,
    waker: WakerId,
    budget: Deadline,
    after: CallOperation<M, T>,
    env_after: CallEnv<M, T>,
    result: Poll<Result<Replied<T>, CallError>>,
    effects: CallEffects<M>,
)
    requires
        call.pollable(env),
        call.pass(
            env,
            waker,
            budget,
            DeadlinePhase::InitialAttempt,
            after,
            env_after,
            result,
            effects,
        ),
    ensures
        result matches Poll::Ready(Err(error)) ==> {
            &&& error.kind != CallErrorKind::ResponseTimedOut
            &&& error.kind == CallErrorKind::AcceptanceTimedOut ==> call.stage is Unstarted
                && budget.at is Some && budget.at->Some_0@ < env.now@
            &&& error.actor_id@ == env.mailbox@.actor
        },
        call.stage is Unstarted && budget.at is Some && budget.at->Some_0@ < env.now@ ==> {
            &&& result matches Poll::Ready(Err(error)) && error.kind
                == CallErrorKind::AcceptanceTimedOut
            &&& env_after.mailbox@ == env.mailbox@
            &&& env_after.reply == env.reply
            &&& effects.disposed == env.message
            &&& after.stage is Done
            &&& !effects.send_cloned && !effects.reply.cloned
            &&& effects.reply.wakers@.len() == 0
        },
{
    if let CallStage::Sending(send) = call.stage {
        assert(send.pollable_in(env.mailbox@));
    }
}

/// A call whose timer fired before its request was built fails for its
/// acceptance and submits nothing: mailbox, reply channel and request stay as
/// they were.
pub proof fn law_an_expired_call_submits_nothing<M, T>(
    call: CallOperation<M, T>,
    env: CallEnv<M, T>,
    waker: WakerId,
    budget: Deadline,
    after: CallOperation<M, T>,
    env_after: CallEnv<M, T>,
    result: Poll<Result<Replied<T>, CallError>>,
    effects: CallEffects<M>,
)
    requires
        call.pollable(env),
        call.stage is Unstarted,
        call.pass(
            env,
            waker,
            budget,
            DeadlinePhase::TimeoutArbitration,
            after,
            env_after,
            result,
            effects,
        ),
    ensures
        result matches Poll::Ready(Err(error)) && error.kind == CallErrorKind::AcceptanceTimedOut
            && error.actor_id@ == env.mailbox@.actor,
        env_after.mailbox@ == env.mailbox@,
        env_after.reply == env.reply,
        env_after.message == env.message,
        effects.disposed is None,
        after.stage is Done,
        !effects.send_cloned,
        !effects.reply.cloned,
        effects.reply.wakers@.len() == 0,
{
}

/// A call whose request is still parked stays pending until its timer fires:
/// the request keeps its place, now waiting for the polling waker, and the
/// reply channel is not touched.
pub proof fn law_a_parked_call_goes_on_waiting<M, T>(
    call: CallOperation<M, T>,
    env: CallEnv<M, T>,
    index: int,
    waker: WakerId,
    budget: Deadline,
    after: CallOperation<M, T>,
    env_after: CallEnv<M, T>,
    result: Poll<Result<Replied<T>, CallError>>,
    effects: CallEffects<M>,
)
    requires
        call.pollable(env),
        call.pass(
            env,
            waker,
            budget,
            DeadlinePhase::InitialAttempt,
            after,
            env_after,
            result,
            effects,
        ),
        0 <= index < env.mailbox@.waiters.len(),
        call.stage matches CallStage::Sending(send) && send.state == SendFutureState::<M>::Parked(
            WaiterId(env.mailbox@.waiters[index].0),
        ),
    ensures
        result is Pending,
        env_after.reply == env.reply,
        after.stage matches CallStage::Sending(send) && send.state == SendFutureState::<M>::Parked(
            WaiterId(env.mailbox@.waiters[index].0),
        ),
        env_after.mailbox@.waiters.len() == env.mailbox@.waiters.len(),
        env_after.mailbox@.waiters[index].0 == env.mailbox@.waiters[index].0,
        env_after.mailbox@.waiters[index].1.outcome == env.mailbox@.waiters[index].1.outcome,
        env_after.mailbox@.waiters[index].1.waker == Some(waker),
        effects.disposed is None,
{
    law_a_parked_send_goes_on_waiting(env.mailbox@, index, waker);
}

/// A call whose timer fired while its request was parked takes the request back
/// and fails for its acceptance: the request leaves the line for the disposal
/// lane, and the reply channel is closed.
pub proof fn law_an_expired_call_takes_its_request_back<M, T>(
    call: CallOperation<M, T>,
    env: CallEnv<M, T>,
    index: int,
    waker: WakerId,
    budget: Deadline,
    after: CallOperation<M, T>,
    env_after: CallEnv<M, T>,
    result: Poll<Result<Replied<T>, CallError>>,
    effects: CallEffects<M>,
)
    requires
        call.pollable(env),
        call.pass(
            env,
            waker,
            budget,
            DeadlinePhase::TimeoutArbitration,
            after,
            env_after,
            result,
            effects,
        ),
        0 <= index < env.mailbox@.waiters.len(),
        call.stage matches CallStage::Sending(send) && send.state == SendFutureState::<M>::Parked(
            WaiterId(env.mailbox@.waiters[index].0),
        ),
    ensures
        result matches Poll::Ready(Err(error)) && error.kind == CallErrorKind::AcceptanceTimedOut,
        env_after.mailbox@ == (MailboxModel::<M> {
            waiters: env.mailbox@.waiters.remove(index),
            ..env.mailbox@
        }),
        env_after.reply.closed,
        effects.disposed == Some(env.mailbox@.waiters[index].1.outcome->Waiting_message),
        after.stage is Done,
        !effects.reply.cloned,
        env.reply.waker matches Some(stale) ==> effects.reply.wakers@ == seq![
            WakerEffect::DropInline(stale),
        ],
        env_after.reply.waker is None,
        env_after.reply.stage == env.reply.stage,
{
    let mailbox = env.mailbox@;
    let id = mailbox.waiters[index].0;
    let step = SendFutureState::<M>::Parked(WaiterId(id)).step(mailbox, waker);
    law_a_parked_send_goes_on_waiting(mailbox, index, waker);
    lemma_registered_wf(mailbox, index, waker);
    law_a_parked_send_comes_back(step.mailbox, index, WithdrawalDisposition::Inline);
    assert(mailbox.waiters[index].1.is_waiting());
    assert(step.mailbox.waiters.remove(index) =~= mailbox.waiters.remove(index));
}

/// The incarnation that has accepted a call's request, whether the call knows
/// already or learns it from its mailbox now.
pub open spec fn accepted_by<M, T>(
    call: CallOperation<M, T>,
    env: CallEnv<M, T>,
    incarnation: Incarnation,
) -> bool {
    match call.stage {
        CallStage::Accepted(accepting) => accepting == incarnation,
        CallStage::Sending(send) => match send.state {
            SendFutureState::Sent(accepting) => accepting == incarnation,
            SendFutureState::Parked(id) => exists|i: int|
                0 <= i < env.mailbox@.settled.len() && (#[trigger] env.mailbox@.settled[i]).0
                    == id.0 && env.mailbox@.settled[i].1.outcome == OperationOutcome::<M>::Accepted(
                    incarnation,
                ),
            _ => false,
        },
        _ => false,
    }
}

/// An accepted call goes by its reply channel: it is answered with the value
/// sent and the accepting incarnation, told that the reply was dropped, or
/// waits; only once its timer fired on an untouched channel does it fail for
/// its response. What was accepted is never taken back.
pub proof fn law_an_accepted_call_goes_by_its_reply<M, T>(
    call: CallOperation<M, T>,
    env: CallEnv<M, T>,
    incarnation: Incarnation,
    waker: WakerId,
    budget: Deadline,
    phase: DeadlinePhase,
    after: CallOperation<M, T>,
    env_after: CallEnv<M, T>,
    result: Poll<Result<Replied<T>, CallError>>,
    effects: CallEffects<M>,
)
    requires
        call.pollable(env),
        accepted_by(call, env, incarnation),
        call.pass(env, waker, budget, phase, after, env_after, result, effects),
    ensures
        env.reply.stage matches OneShotStage::Full(value) ==> {
            &&& result matches Poll::Ready(Ok(replied))
            &&& replied.value == value
            &&& replied.incarnation == incarnation
        },
        env.reply.stage is SenderGone ==> {
            &&& result matches Poll::Ready(Err(error))
            &&& error.kind == CallErrorKind::ReplyDropped
            &&& error.incarnation_observed == Some(incarnation)
        },
        env.reply.stage is Sending ==> result is Pending,
        env.reply.stage is Empty && phase is InitialAttempt ==> result is Pending
            && env_after.reply == (OneShot::<T> { waker: Some(waker), ..env.reply }),
        env.reply.stage is Empty && phase is TimeoutArbitration ==> {
            &&& result matches Poll::Ready(Err(error))
            &&& error.kind == CallErrorKind::ResponseTimedOut
            &&& error.incarnation_observed == Some(incarnation)
            &&& env_after.reply.closed
        },
        effects.disposed is None,
        after.stage == CallStage::<M>::Accepted(incarnation),
        env_after.mailbox@.queue == env.mailbox@.queue,
        env_after.mailbox@.latest == env.mailbox@.latest,
        env_after.mailbox@.waiters == env.mailbox@.waiters,
        !effects.send_cloned,
        !effects.mailbox.pulse,
        effects.mailbox.wakers@.len() == 0,
        env.reply.stage is Sending || (env.reply.stage is Empty && phase is InitialAttempt) ==> {
            &&& effects.reply.cloned == (env.reply.waker != Some(waker))
            &&& env.reply.waker matches Some(stale) ==> (stale != waker ==> effects.reply.wakers@
                == seq![WakerEffect::DropInline(stale)])
            &&& env.reply.waker is None || env.reply.waker == Some(waker)
                ==> effects.reply.wakers@.len() == 0
        },
        env.reply.stage is Full || env.reply.stage is SenderGone ==> !effects.reply.cloned,
{
    assert(effects.mailbox@.pulse == effects.mailbox.pulse);
    assert(effects.mailbox@.wakers == effects.mailbox.wakers@);
    law_a_reply_poll_goes_by_the_channel(env.reply, waker, phase);
    if let CallStage::Sending(send) = call.stage {
        if let SendFutureState::Parked(id) = send.state {
            let i = choose|i: int|
                0 <= i < env.mailbox@.settled.len() && (#[trigger] env.mailbox@.settled[i]).0
                    == id.0 && env.mailbox@.settled[i].1.outcome == OperationOutcome::<M>::Accepted(
                    incarnation,
                );
            law_a_decided_send_ends(env.mailbox@, i, waker);
        }
    }
}

/// The first pass of a call submits its request in time: a mailbox that takes
/// it at once holds it, and the call is decided by the reply channel alone; a
/// terminated mailbox ends the call as terminated; any other parks the request,
/// and the call waits.
pub proof fn law_a_call_submits_its_request<M, T>(
    call: CallOperation<M, T>,
    env: CallEnv<M, T>,
    message: M,
    waker: WakerId,
    budget: Deadline,
    after: CallOperation<M, T>,
    env_after: CallEnv<M, T>,
    result: Poll<Result<Replied<T>, CallError>>,
    effects: CallEffects<M>,
)
    requires
        call.pollable(env),
        call.stage is Unstarted,
        env.message == Some(message),
        budget.at is Some ==> env.now@ <= budget.at->Some_0@,
        call.pass(
            env,
            waker,
            budget,
            DeadlinePhase::InitialAttempt,
            after,
            env_after,
            result,
            effects,
        ),
    ensures
        env_after.message is None,
        takes_at_once(env.mailbox@) ==> {
            let incarnation = env.mailbox@.phase->Bound_0.incarnation;
            &&& env_after.mailbox@ == env.mailbox@.submitted(message)
            &&& env_after.mailbox@.accepted == env.mailbox@.accepted + 1
            &&& after.stage == CallStage::<M>::Accepted(incarnation)
            &&& env.reply.stage is Empty ==> result is Pending && env_after.reply.stage is Empty
            &&& env.reply.stage matches OneShotStage::Full(value) ==> {
                &&& result matches Poll::Ready(Ok(replied))
                &&& replied.value == value
                &&& replied.incarnation == incarnation
            }
        },
        env.mailbox@.phase matches Phase::Terminal(last) ==> {
            &&& result matches Poll::Ready(Err(error))
            &&& error.kind == CallErrorKind::Terminated
            &&& error.incarnation_observed == last
            &&& env_after.mailbox@ == env.mailbox@
            &&& env_after.reply.closed
            &&& effects.disposed == Some(message)
            &&& after.stage is Done
        },
        !takes_at_once(env.mailbox@) && !(env.mailbox@.phase is Terminal) ==> {
            &&& result is Pending
            &&& env_after.reply == env.reply
            &&& env_after.mailbox@.waiters.drop_last() == env.mailbox@.waiters
            &&& env_after.mailbox@.waiters.last().1.outcome matches OperationOutcome::Waiting {
                message: kept,
                ..
            } && kept == message
            &&& env_after.mailbox@.waiters.last().1.waker == Some(waker)
            &&& after.stage matches CallStage::Sending(send) && send.state
                == SendFutureState::<M>::Parked(WaiterId(env_after.mailbox@.waiters.last().0))
        },
{
    law_the_first_poll_submits(message, env.mailbox@, waker);
    law_a_reply_poll_goes_by_the_channel(env.reply, waker, DeadlinePhase::InitialAttempt);
}

/// A parked call whose mailbox terminates ends as terminated, before and after
/// its timer fired; its request goes to the disposal lane.
pub proof fn law_a_terminated_call_says_so<M, T>(
    call: CallOperation<M, T>,
    env: CallEnv<M, T>,
    index: int,
    waker: WakerId,
    budget: Deadline,
    phase: DeadlinePhase,
    after: CallOperation<M, T>,
    env_after: CallEnv<M, T>,
    result: Poll<Result<Replied<T>, CallError>>,
    effects: CallEffects<M>,
)
    requires
        call.pollable(env),
        call.pass(env, waker, budget, phase, after, env_after, result, effects),
        0 <= index < env.mailbox@.settled.len(),
        env.mailbox@.settled[index].1.outcome is Terminated,
        call.stage matches CallStage::Sending(send) && send.state == SendFutureState::<M>::Parked(
            WaiterId(env.mailbox@.settled[index].0),
        ),
    ensures
        result matches Poll::Ready(Err(error)) && error.kind == CallErrorKind::Terminated
            && error.incarnation_observed
            == env.mailbox@.settled[index].1.outcome->Terminated_final_incarnation,
        effects.disposed == Some(env.mailbox@.settled[index].1.outcome->Terminated_message),
        env_after.reply.closed,
        env_after.reply.waker is None,
        !effects.reply.cloned,
        after.stage is Done,
{
    law_a_decided_send_ends(env.mailbox@, index, waker);
}

/// A call with no time at all is not attempted: it fails for its acceptance,
/// and its mailbox, reply channel and request stay as they were.
pub proof fn law_a_call_without_time_is_not_attempted<M, T>(
    call: CallOperation<M, T>,
    env: CallEnv<M, T>,
    after: CallOperation<M, T>,
    env_after: CallEnv<M, T>,
    output: Result<Replied<T>, CallError>,
    effects: CallEffects<M>,
)
    requires
        call.cut(env, after, env_after, output, effects),
    ensures
        env_after == env,
        after == call,
        output matches Err(error) && {
            &&& error.kind == CallErrorKind::AcceptanceTimedOut
            &&& error.actor_id@ == env.mailbox@.actor
            &&& error.incarnation_observed == match env.mailbox@.phase {
                Phase::Bound(binding) => Some(binding.incarnation),
                Phase::Frozen(binding) => Some(binding.incarnation),
                _ => None,
            }
        },
        !effects.mailbox.pulse,
        effects.mailbox.displaced@.len() == 0,
        effects.mailbox.wakers@.len() == 0,
        effects.disposed is None,
        !effects.send_cloned,
        !effects.reply.cloned,
        effects.reply.wakers@.len() == 0,
{
    assert(effects.mailbox@.pulse == effects.mailbox.pulse);
    assert(effects.mailbox@.displaced == effects.mailbox.displaced@);
    assert(effects.mailbox@.wakers == effects.mailbox.wakers@);
}

/// What a caller is told is what happened: an accepting incarnation, or the
/// unaccepted message with its cause and the incarnation seen.
pub proof fn law_a_result_tells_what_happened<M, T>(
    sent: Result<Incarnation, SendError<M>>,
    send_verdict: SendVerdict<M>,
    called: Result<Replied<T>, CallError>,
    call_verdict: CallVerdict<T>,
    actor: Seq<char>,
)
    ensures
        reports(sent, send_verdict, actor) ==> match sent {
            Ok(incarnation) => send_verdict == SendVerdict::<M>::Accepted(incarnation),
            Err(error) => error.actor_id@ == actor && send_verdict == (SendVerdict::Failed {
                observed: error.incarnation_observed,
                message: error.message,
                kind: error.kind,
            }),
        },
        call_reports(called, call_verdict, actor) ==> match called {
            Ok(replied) => call_verdict == CallVerdict::Replied(
                replied.value,
                replied.incarnation,
            ),
            Err(error) => error.actor_id@ == actor && call_verdict == CallVerdict::<T>::Failed(
                error.incarnation_observed,
                error.kind,
            ),
        },
{
}

/// The deadline is counted from the first poll and from no other: it falls the
/// whole budget after it, a timer is armed for that instant unless there is no
/// time at all, and a budget past the end of the clock never runs out.
pub proof fn law_the_deadline_counts_from_the_first_poll<F>(
    waiting: Deadlined<F>,
    now: Instant,
    after: Deadlined<F>,
)
    requires
        waiting.begun(now, after),
    ensures
        waiting.started ==> after == waiting,
        !waiting.started ==> {
            &&& after.started
            &&& after.operation == waiting.operation
            &&& after.budget_width == waiting.budget_width
            &&& after.phase == waiting.phase
            &&& after.budget matches Some(deadline)
            &&& now@ + waiting.budget_width.width@ <= MAX_INSTANT_NANOS <==> deadline.at
                is Some
            &&& deadline.at matches Some(at) ==> at@ == now@ + waiting.budget_width.width@
            &&& waiting.budget_width.width@ > 0 ==> after.timer == deadline.at
            &&& waiting.budget_width.width@ == 0 ==> after.timer is None
        },
{
    broadcast use Instant::lemma_later;

}

/// A poll tries the operation first. Until the timer fires that one attempt is
/// all: its result is the poll's, and the timer stays armed while the
/// operation waits. Once the timer has fired an operation that waits arbitrates
/// its timeout in the same poll, and the timer is never consulted again.
pub proof fn law_a_poll_attempts_before_it_arbitrates<F: DeadlineOperation>(
    waiting: Deadlined<F>,
    env: F::Env,
    waker: WakerId,
    fired: bool,
    after: Deadlined<F>,
    env_after: F::Env,
    result: Poll<F::Output>,
    effects: Seq<F::Effects>,
)
    requires
        waiting.wf(),
        waiting.budget is Some,
        waiting.budget_width.width@ > 0,
        waiting.polled(env, waker, fired, after, env_after, result, effects),
    ensures
        after.budget == waiting.budget,
        after.budget_width == waiting.budget_width,
        waiting.phase is InitialAttempt && (waiting.timer is None || !fired) ==> {
            &&& effects.len() == 1
            &&& waiting.operation.pass(
                env,
                waker,
                waiting.budget->Some_0,
                DeadlinePhase::InitialAttempt,
                after.operation,
                env_after,
                result,
                effects[0],
            )
            &&& after.phase is InitialAttempt
            &&& result is Pending ==> after.timer == waiting.timer
        },
        result is Ready ==> after.timer is None,
        waiting.phase is TimeoutArbitration || (waiting.timer is Some && fired) ==> {
            &&& effects.len() == 1 ==> result is Ready && waiting.operation.pass(
                env,
                waker,
                waiting.budget->Some_0,
                DeadlinePhase::InitialAttempt,
                after.operation,
                env_after,
                result,
                effects[0],
            )
            &&& effects.len() != 1 ==> {
                &&& effects.len() == 2
                &&& after.phase is TimeoutArbitration
                &&& after.timer is None
                &&& exists|middle: F, env_middle: F::Env|
                    #![trigger waiting.operation.pass(
                        env,
                        waker,
                        waiting.budget->Some_0,
                        DeadlinePhase::InitialAttempt,
                        middle,
                        env_middle,
                        Poll::<F::Output>::Pending,
                        effects[0],
                    )]
                    {
                        &&& waiting.operation.pass(
                            env,
                            waker,
                            waiting.budget->Some_0,
                            DeadlinePhase::InitialAttempt,
                            middle,
                            env_middle,
                            Poll::<F::Output>::Pending,
                            effects[0],
                        )
                        &&& middle.pass(
                            env_middle,
                            waker,
                            waiting.budget->Some_0,
                            DeadlinePhase::TimeoutArbitration,
                            after.operation,
                            env_after,
                            result,
                            effects[1],
                        )
                    }
            }
        },
        result is Pending && effects.len() == 1 ==> waiting.phase is InitialAttempt && (
        waiting.timer is None || !fired),
{
}

/// A timed send that is still parked waits while its timer has not fired, and
/// fails with its own message in the poll that finds the timer fired.
pub proof fn law_a_timed_send_ends_with_its_timer<M>(
    waiting: Deadlined<TimedSend<M>>,
    env: MailboxCell<M>,
    index: int,
    waker: WakerId,
    fired: bool,
    after: Deadlined<TimedSend<M>>,
    env_after: MailboxCell<M>,
    result: Poll<Result<Incarnation, SendError<M>>>,
    effects: Seq<SendEffects<M>>,
)
    requires
        waiting.wf(),
        waiting.timer is Some,
        waiting.budget_width.width@ > 0,
        waiting.operation.pollable(env),
        0 <= index < env@.waiters.len(),
        waiting.operation.send.state == SendFutureState::<M>::Parked(
            WaiterId(env@.waiters[index].0),
        ),
        waiting.polled(env, waker, fired, after, env_after, result, effects),
    ensures
        !fired ==> result is Pending && after.timer == waiting.timer,
        fired ==> {
            &&& result matches Poll::Ready(Err(error))
            &&& error.kind == SendErrorKind::TimedOut
            &&& error.message == env@.waiters[index].1.outcome->Waiting_message
            &&& env_after@ == (MailboxModel::<M> {
                waiters: env@.waiters.remove(index),
                ..env@
            })
        },
{
    law_a_poll_attempts_before_it_arbitrates(
        waiting,
        env,
        waker,
        fired,
        after,
        env_after,
        result,
        effects,
    );
    let budget = waiting.budget->Some_0;
    let row = env@.waiters[index];
    if effects.len() == 1 {
        law_a_timed_send_waits_for_its_timer(
            waiting.operation,
            env,
            waker,
            budget,
            after.operation,
            env_after,
            result,
            effects[0],
        );
        assert(env@.waiters[index].0 == row.0);
    } else {
        let (middle, env_middle) = choose|middle: TimedSend<M>, env_middle: MailboxCell<M>|
            #![trigger waiting.operation.pass(
                env,
                waker,
                budget,
                DeadlinePhase::InitialAttempt,
                middle,
                env_middle,
                Poll::<Result<Incarnation, SendError<M>>>::Pending,
                effects[0],
            )]
            {
                &&& waiting.operation.pass(
                    env,
                    waker,
                    budget,
                    DeadlinePhase::InitialAttempt,
                    middle,
                    env_middle,
                    Poll::<Result<Incarnation, SendError<M>>>::Pending,
                    effects[0],
                )
                &&& middle.pass(
                    env_middle,
                    waker,
                    budget,
                    DeadlinePhase::TimeoutArbitration,
                    after.operation,
                    env_after,
                    result,
                    effects[1],
                )
            };
        law_a_parked_send_goes_on_waiting(env@, index, waker);
        assert(has_key(env_middle@.waiters, row.0)) by {
            assert(env_middle@.waiters[index].0 == row.0);
        }
        law_an_expired_send_ends(
            middle,
            env_middle,
            waker,
            budget,
            after.operation,
            env_after,
            result,
            effects[1],
        );
        assert(env_middle@.waiters[index].0 == row.0);
        assert(env_middle@.waiters.remove(index) =~= env@.waiters.remove(index));
    }
}

/// A receive on an untouched channel waits while its timer has not fired, and
/// times out in the poll that finds the timer fired; a value there is received
/// whether the timer has fired or not.
pub proof fn law_a_receive_ends_with_its_timer<T>(
    waiting: Deadlined<ReplyOperation<T>>,
    env: OneShot<T>,
    waker: WakerId,
    fired: bool,
    after: Deadlined<ReplyOperation<T>>,
    env_after: OneShot<T>,
    result: Poll<Result<T, ReplyError>>,
    effects: Seq<ReplyEffects>,
)
    requires
        waiting.wf(),
        waiting.timer is Some,
        waiting.budget_width.width@ > 0,
        waiting.operation.pollable(env),
        waiting.polled(env, waker, fired, after, env_after, result, effects),
    ensures
        env.stage is Empty && !fired ==> result is Pending && after.timer == waiting.timer
            && env_after.closed == env.closed,
        env.stage is Empty && fired ==> result == Poll::Ready(
            Err::<T, ReplyError>(ReplyError::Timeout),
        ) && env_after.closed,
        env.stage matches OneShotStage::Full(value) ==> result == Poll::Ready(
            Ok::<T, ReplyError>(value),
        ),
        env.stage is SenderGone ==> result == Poll::Ready(Err::<T, ReplyError>(ReplyError::Dropped)),
        env.stage is Sending ==> result is Pending,
{
    law_a_poll_attempts_before_it_arbitrates(
        waiting,
        env,
        waker,
        fired,
        after,
        env_after,
        result,
        effects,
    );
    let budget = waiting.budget->Some_0;
    law_a_reply_poll_goes_by_the_channel(env, waker, DeadlinePhase::InitialAttempt);
    if effects.len() == 2 {
        let (middle, env_middle) = choose|middle: ReplyOperation<T>, env_middle: OneShot<T>|
            #![trigger waiting.operation.pass(
                env,
                waker,
                budget,
                DeadlinePhase::InitialAttempt,
                middle,
                env_middle,
                Poll::<Result<T, ReplyError>>::Pending,
                effects[0],
            )]
            {
                &&& waiting.operation.pass(
                    env,
                    waker,
                    budget,
                    DeadlinePhase::InitialAttempt,
                    middle,
                    env_middle,
                    Poll::<Result<T, ReplyError>>::Pending,
                    effects[0],
                )
                &&& middle.pass(
                    env_middle,
                    waker,
                    budget,
                    DeadlinePhase::TimeoutArbitration,
                    after.operation,
                    env_after,
                    result,
                    effects[1],
                )
            };
        law_a_reply_poll_goes_by_the_channel(env_middle, waker, DeadlinePhase::TimeoutArbitration);
    }
}

/// A call whose request is still parked waits while its timer has not fired,
/// and fails for its acceptance in the poll that finds the timer fired; one
/// accepted with no answer yet fails for its response in that poll.
pub proof fn law_a_call_ends_with_its_timer<M, T>(
    waiting: Deadlined<CallOperation<M, T>>,
    env: CallEnv<M, T>,
    index: int,
    waker: WakerId,
    fired: bool,
    after: Deadlined<CallOperation<M, T>>,
    env_after: CallEnv<M, T>,
    result: Poll<Result<Replied<T>, CallError>>,
    effects: Seq<CallEffects<M>>,
)
    requires
        waiting.wf(),
        waiting.timer is Some,
        waiting.budget_width.width@ > 0,
        waiting.operation.pollable(env),
        waiting.polled(env, waker, fired, after, env_after, result, effects),
    ensures
        ({
            let parked = 0 <= index < env.mailbox@.waiters.len() && waiting.operation.stage
                is Sending && waiting.operation.stage->Sending_0.state
                == SendFutureState::<M>::Parked(WaiterId(env.mailbox@.waiters[index].0));
            &&& parked && !fired ==> result is Pending && after.timer == waiting.timer
                && env_after.reply == env.reply
            &&& parked && fired ==> (result matches Poll::Ready(Err(error)) && error.kind
                == CallErrorKind::AcceptanceTimedOut)
        }),
        waiting.operation.stage is Accepted && env.reply.stage is Empty ==> {
            &&& !fired ==> result is Pending && after.timer == waiting.timer
            &&& fired ==> (result matches Poll::Ready(Err(error)) && error.kind
                == CallErrorKind::ResponseTimedOut)
        },
        waiting.operation.stage matches CallStage::Accepted(incarnation) ==> (
        env.reply.stage matches OneShotStage::Full(value) ==> (result matches Poll::Ready(
            Ok(replied),
        ) && replied.value == value && replied.incarnation == incarnation)),
{
    law_a_poll_attempts_before_it_arbitrates(
        waiting,
        env,
        waker,
        fired,
        after,
        env_after,
        result,
        effects,
    );
    let budget = waiting.budget->Some_0;
    let parked = 0 <= index < env.mailbox@.waiters.len() && waiting.operation.stage is Sending
        && waiting.operation.stage->Sending_0.state == SendFutureState::<M>::Parked(
        WaiterId(env.mailbox@.waiters[index].0),
    );
    law_a_reply_poll_goes_by_the_channel(env.reply, waker, DeadlinePhase::InitialAttempt);
    if parked {
        law_a_parked_send_goes_on_waiting(env.mailbox@, index, waker);
    }
    if effects.len() == 2 {
        let (middle, env_middle) = choose|middle: CallOperation<M, T>, env_middle: CallEnv<M, T>|
            #![trigger waiting.operation.pass(
                env,
                waker,
                budget,
                DeadlinePhase::InitialAttempt,
                middle,
                env_middle,
                Poll::<Result<Replied<T>, CallError>>::Pending,
                effects[0],
            )]
            {
                &&& waiting.operation.pass(
                    env,
                    waker,
                    budget,
                    DeadlinePhase::InitialAttempt,
                    middle,
                    env_middle,
                    Poll::<Result<Replied<T>, CallError>>::Pending,
                    effects[0],
                )
                &&& middle.pass(
                    env_middle,
                    waker,
                    budget,
                    DeadlinePhase::TimeoutArbitration,
                    after.operation,
                    env_after,
                    result,
                    effects[1],
                )
            };
        law_a_reply_poll_goes_by_the_channel(
            env_middle.reply,
            waker,
            DeadlinePhase::TimeoutArbitration,
        );
        if parked {
            assert(env_middle.mailbox@.waiters[index].0 == env.mailbox@.waiters[index].0);
            assert(has_key(env_middle.mailbox@.waiters, env.mailbox@.waiters[index].0));
            law_an_expired_call_takes_its_request_back(
                middle,
                env_middle,
                index,
                waker,
                budget,
                after.operation,
                env_after,
                result,
                effects[1],
            );
        }
    }
}

/// A poll with no time at all ends the operation unattempted.
pub proof fn law_a_poll_without_time_ends_unattempted<F: DeadlineOperation>(
    waiting: Deadlined<F>,
    env: F::Env,
    waker: WakerId,
    fired: bool,
    after: Deadlined<F>,
    env_after: F::Env,
    result: Poll<F::Output>,
    effects: Seq<F::Effects>,
)
    requires
        waiting.budget_width.width@ == 0,
        waiting.polled(env, waker, fired, after, env_after, result, effects),
    ensures
        result is Ready,
        effects.len() == 1,
        waiting.operation.cut(env, after.operation, env_after, result->Ready_0, effects[0]),
        after.budget == waiting.budget,
        after.timer == waiting.timer,
        after.phase == waiting.phase,
        after.started == waiting.started,
        after.budget_width == waiting.budget_width,
{
}

} // verus!
