//! One deadline around a mailbox operation, captured at its first poll.

use crate::mailbox::operation::WakerId;
use crate::poll::Poll;
use crate::time::{Deadline, DeadlineBudget, Instant};
use vstd::prelude::*;

verus! {

/// Which of the two passes an operation is polled in.
#[derive(Clone, Copy, Debug, PartialEq, Eq, Structural)]
pub enum DeadlinePhase {
    /// The operation may only complete on its own terms.
    InitialAttempt,
    /// The timer has fired: the operation decides between a completion that
    /// landed concurrently and its timeout.
    TimeoutArbitration,
}

/// An operation that a deadline can end.
pub trait DeadlineOperation: Sized {
    /// The shared state the operation works on.
    type Env;

    /// What the operation yields.
    type Output;

    /// What one pass owes its surroundings.
    type Effects;

    /// Whether the operation can be polled in this environment.
    spec fn pollable(self, env: Self::Env) -> bool;

    /// Whether the operation, never attempted, can be ended in this
    /// environment.
    spec fn endable(self, env: Self::Env) -> bool;

    /// What one pass can do.
    spec fn pass(
        self,
        env: Self::Env,
        waker: WakerId,
        budget: Deadline,
        phase: DeadlinePhase,
        after: Self,
        env_after: Self::Env,
        result: Poll<Self::Output>,
        effects: Self::Effects,
    ) -> bool;

    /// What ending an operation that was never attempted can do.
    spec fn cut(
        self,
        env: Self::Env,
        after: Self,
        env_after: Self::Env,
        output: Self::Output,
        effects: Self::Effects,
    ) -> bool;

    /// Polls the operation before or after the timer fired.
    fn poll_deadlined(
        &mut self,
        env: &mut Self::Env,
        waker: WakerId,
        budget: Deadline,
        phase: DeadlinePhase,
    ) -> (outcome: (Poll<Self::Output>, Self::Effects))
        requires
            old(self).pollable(*old(env)),
        ensures
            old(self).pass(
                *old(env),
                waker,
                budget,
                phase,
                *final(self),
                *final(env),
                outcome.0,
                outcome.1,
            ),
            outcome.0 is Pending ==> final(self).pollable(*final(env)),
    ;

    /// Ends the operation without attempting it.
    fn short_circuit(&mut self, env: &mut Self::Env) -> (outcome: (Self::Output, Self::Effects))
        requires
            old(self).endable(*old(env)),
        ensures
            old(self).cut(*old(env), *final(self), *final(env), outcome.0, outcome.1),
    ;
}

/// An operation under one deadline.
#[derive(Debug)]
pub struct Deadlined<F> {
    /// The operation.
    pub operation: F,
    /// How much time the operation has from its first poll.
    pub budget_width: DeadlineBudget,
    /// The deadline, once captured.
    pub budget: Option<Deadline>,
    /// When the armed timer fires.
    pub timer: Option<Instant>,
    /// Whether the first poll has captured the deadline.
    pub started: bool,
    /// Which pass comes next.
    pub phase: DeadlinePhase,
}

/// What one poll of a deadlined operation came to.
#[derive(Debug)]
pub struct DeadlinedPoll<O, E> {
    /// The operation's result.
    pub result: Poll<O>,
    /// What the passes owe, in order: one, or two when the timer fired.
    pub effects: Vec<E>,
}

impl<F> Deadlined<F> {
    /// Wraps an operation that was not attempted yet.
    pub fn no_attempt(operation: F, budget_width: DeadlineBudget) -> (deadlined: Deadlined<F>)
        ensures
            deadlined == (Deadlined {
                operation,
                budget_width,
                budget: None,
                timer: None,
                started: false,
                phase: DeadlinePhase::InitialAttempt,
            }),
    {
        Deadlined {
            operation,
            budget_width,
            budget: None,
            timer: None,
            started: false,
            phase: DeadlinePhase::InitialAttempt,
        }
    }

    /// What holds between polls: a started operation keeps its deadline, and
    /// only a representable one that has not fired keeps a timer.
    pub open spec fn wf(self) -> bool {
        &&& self.started <==> self.budget is Some
        &&& self.timer is Some ==> self.started && self.phase is InitialAttempt
            && self.timer == self.budget->Some_0.at
    }

    /// The operation once its first poll has captured the deadline at `now`. A
    /// zero budget and an unrepresentable deadline arm no timer.
    pub open spec fn begun(self, now: Instant, after: Deadlined<F>) -> bool {
        if self.started {
            after == self
        } else {
            let at = now.later(self.budget_width.width);
            after == (Deadlined {
                started: true,
                budget: Some(Deadline { at }),
                timer: if self.budget_width.width@ == 0 {
                    None
                } else {
                    at
                },
                ..self
            })
        }
    }

    /// Captures the deadline at the first poll; later calls change nothing.
    /// Returns the instant to arm a timer for.
    pub fn start(&mut self, now: Instant) -> (armed: Option<Instant>)
        requires
            old(self).wf(),
            !old(self).started ==> old(self).phase is InitialAttempt,
        ensures
            final(self).wf(),
            final(self).started,
            old(self).begun(now, *final(self)),
            armed == if old(self).started {
                None
            } else {
                final(self).timer
            },
    {
        if self.started {
            return None;
        }
        self.started = true;
        let deadline = Deadline::after(now, self.budget_width.duration());
        self.budget = Some(deadline);
        if !self.budget_width.is_zero() {
            self.timer = deadline.instant();
        } else {
            self.timer = None;
        }
        self.timer
    }
}

impl<F: DeadlineOperation> Deadlined<F> {
    /// What one poll of a started operation can do. `fired` says whether the
    /// armed timer has fired.
    pub open spec fn polled(
        self,
        env: F::Env,
        waker: WakerId,
        fired: bool,
        after: Deadlined<F>,
        env_after: F::Env,
        result: Poll<F::Output>,
        effects: Seq<F::Effects>,
    ) -> bool {
        let budget = self.budget->Some_0;
        if self.budget_width.width@ == 0 {
            &&& effects.len() == 1
            &&& result matches Poll::Ready(output)
            &&& self.operation.cut(env, after.operation, env_after, output, effects[0])
            &&& after == (Deadlined { operation: after.operation, ..self })
        } else {
            ||| self.decided_at_once(env, waker, after, env_after, result, effects)
            ||| self.left_waiting(env, waker, fired, after, env_after, result, effects)
            ||| exists|middle: F, env_middle: F::Env|
                #![trigger self.operation.pass(
                    env,
                    waker,
                    budget,
                    DeadlinePhase::InitialAttempt,
                    middle,
                    env_middle,
                    Poll::<F::Output>::Pending,
                    effects[0],
                )]
                {
                    &&& effects.len() == 2
                    &&& self.operation.pass(
                        env,
                        waker,
                        budget,
                        DeadlinePhase::InitialAttempt,
                        middle,
                        env_middle,
                        Poll::<F::Output>::Pending,
                        effects[0],
                    )
                    &&& self.past_the_timer(fired)
                    &&& middle.pass(
                        env_middle,
                        waker,
                        budget,
                        DeadlinePhase::TimeoutArbitration,
                        after.operation,
                        env_after,
                        result,
                        effects[1],
                    )
                    &&& after == (Deadlined {
                        operation: after.operation,
                        timer: None,
                        phase: DeadlinePhase::TimeoutArbitration,
                        ..self
                    })
                }
        }
    }

    /// Whether the timer has fired, now or at an earlier poll.
    pub open spec fn past_the_timer(self, fired: bool) -> bool {
        self.phase is TimeoutArbitration || (self.timer is Some && fired)
    }

    /// The operation completed on its own terms, which retires the timer.
    pub open spec fn decided_at_once(
        self,
        env: F::Env,
        waker: WakerId,
        after: Deadlined<F>,
        env_after: F::Env,
        result: Poll<F::Output>,
        effects: Seq<F::Effects>,
    ) -> bool {
        &&& effects.len() == 1
        &&& result is Ready
        &&& self.operation.pass(
            env,
            waker,
            self.budget->Some_0,
            DeadlinePhase::InitialAttempt,
            after.operation,
            env_after,
            result,
            effects[0],
        )
        &&& after == (Deadlined { operation: after.operation, timer: None, ..self })
    }

    /// The operation waits and its timer has not fired.
    pub open spec fn left_waiting(
        self,
        env: F::Env,
        waker: WakerId,
        fired: bool,
        after: Deadlined<F>,
        env_after: F::Env,
        result: Poll<F::Output>,
        effects: Seq<F::Effects>,
    ) -> bool {
        &&& effects.len() == 1
        &&& result is Pending
        &&& !self.past_the_timer(fired)
        &&& self.operation.pass(
            env,
            waker,
            self.budget->Some_0,
            DeadlinePhase::InitialAttempt,
            after.operation,
            env_after,
            result,
            effects[0],
        )
        &&& after == (Deadlined { operation: after.operation, ..self })
    }

    /// Has an operation that waits arbitrate its timeout, its timer having
    /// fired. A timer is polled only for an operation that was found waiting,
    /// so this is the second half of a poll that found it so.
    pub fn expire(&mut self, env: &mut F::Env, waker: WakerId) -> (outcome: (
        Poll<F::Output>,
        F::Effects,
    ))
        requires
            old(self).wf(),
            old(self).started,
            old(self).past_the_timer(true),
            old(self).operation.pollable(*old(env)),
        ensures
            final(self).wf(),
            *final(self) == (Deadlined {
                operation: final(self).operation,
                timer: None,
                phase: DeadlinePhase::TimeoutArbitration,
                ..*old(self)
            }),
            old(self).operation.pass(
                *old(env),
                waker,
                old(self).budget->Some_0,
                DeadlinePhase::TimeoutArbitration,
                final(self).operation,
                *final(env),
                outcome.0,
                outcome.1,
            ),
            outcome.0 is Pending ==> final(self).operation.pollable(*final(env)),
    {
        self.phase = DeadlinePhase::TimeoutArbitration;
        self.timer = None;
        let budget = self.budget.unwrap();
        self.operation.poll_deadlined(env, waker, budget, DeadlinePhase::TimeoutArbitration)
    }

    /// Polls the operation: a zero budget ends it unattempted; otherwise it is
    /// tried first, and only where it still waits after the timer fired does it
    /// arbitrate its timeout. A timer that fired or whose operation completed
    /// is never consulted again.
    pub fn poll(&mut self, env: &mut F::Env, waker: WakerId, fired: bool) -> (polled: DeadlinedPoll<
        F::Output,
        F::Effects,
    >)
        requires
            old(self).wf(),
            old(self).started,
            if old(self).budget_width.width@ == 0 {
                old(self).operation.endable(*old(env))
            } else {
                old(self).operation.pollable(*old(env))
            },
        ensures
            final(self).wf(),
            final(self).started,
            polled.result is Pending ==> final(self).operation.pollable(*final(env)),
            old(self).polled(
                *old(env),
                waker,
                fired,
                *final(self),
                *final(env),
                polled.result,
                polled.effects@,
            ),
    {
        let mut effects: Vec<F::Effects> = Vec::new();
        if self.budget_width.is_zero() {
            let (output, owed) = self.operation.short_circuit(env);
            effects.push(owed);
            return DeadlinedPoll { result: Poll::Ready(output), effects };
        }
        let budget = self.budget.unwrap();
        let (first, owed) = self.operation.poll_deadlined(
            env,
            waker,
            budget,
            DeadlinePhase::InitialAttempt,
        );
        effects.push(owed);
        match first {
            Poll::Ready(output) => {
                self.timer = None;
                DeadlinedPoll { result: Poll::Ready(output), effects }
            },
            Poll::Pending => {
                if let DeadlinePhase::InitialAttempt = self.phase {
                    if self.timer.is_none() || !fired {
                        return DeadlinedPoll { result: Poll::Pending, effects };
                    }
                }
                let ghost middle = self.operation;
                let ghost env_middle = *env;
                let (second, owed) = self.expire(env, waker);
                effects.push(owed);
                proof {
                    assert(old(self).operation.pass(
                        *old(env),
                        waker,
                        budget,
                        DeadlinePhase::InitialAttempt,
                        middle,
                        env_middle,
                        Poll::<F::Output>::Pending,
                        effects@[0],
                    ));
                }
                DeadlinedPoll { result: second, effects }
            },
        }
    }
}

/// A timer that fired, or whose operation completed, is never consulted again:
/// none is left armed, and without an armed timer it makes no difference
/// whether one is said to have fired.
pub proof fn law_a_spent_timer_is_never_consulted<F: DeadlineOperation>(
    before: Deadlined<F>,
    env: F::Env,
    waker: WakerId,
    fired: bool,
    after: Deadlined<F>,
    env_after: F::Env,
    result: Poll<F::Output>,
    effects: Seq<F::Effects>,
)
    requires
        before.wf(),
        before.started,
        before.polled(env, waker, fired, after, env_after, result, effects),
    ensures
        before.budget_width.width@ != 0 && (result is Ready || before.past_the_timer(fired))
            ==> after.timer is None,
        before.timer is None ==> before.polled(
            env,
            waker,
            !fired,
            after,
            env_after,
            result,
            effects,
        ),
{
    if before.budget_width.width@ != 0 {
        if before.decided_at_once(env, waker, after, env_after, result, effects) {
        } else if before.left_waiting(env, waker, fired, after, env_after, result, effects) {
        } else {
            assert(before.past_the_timer(fired));
        }
    }
}

} // verus!
