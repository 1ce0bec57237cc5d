//! Offloaded work and its per-incarnation resource.

use crate::poll::Poll;
use crate::raw::disposal::{Caught, PanicPayload};
use crate::raw::latch::{is_set, LatchId, LatchTable};
use vstd::prelude::*;

verus! {

/// Told to an offload's continuation when its one deadline expires.
#[derive(Clone, Copy, Debug, PartialEq, Eq, Structural)]
pub struct DeadlineElapsed;

impl DeadlineElapsed {
    /// The diagnostic.
    pub fn message(self) -> (text: &'static str)
        ensures
            text@ == "the offload deadline elapsed"@,
    {
        "the offload deadline elapsed"
    }
}

/// A cancel-on-drop lease for a scoped offload.
#[must_use]
#[derive(Debug)]
pub struct Guard {
    /// Fires when cancellation is requested.
    pub cancellation: LatchId,
    /// Fires when the work has finished or teardown cancels it.
    pub finished: LatchId,
    /// Whether dropping the lease cancels.
    pub armed: bool,
}

impl Guard {
    /// Whether cancellation was requested for this lease.
    pub fn is_cancelled(&self, latches: &LatchTable) -> (cancelled: bool)
        ensures
            cancelled == is_set(latches@, self.cancellation),
    {
        latches.is_fired(self.cancellation)
    }

    /// Whether the work completed or teardown requested cancellation.
    pub fn is_finished(&self, latches: &LatchTable) -> (finished: bool)
        ensures
            finished == is_set(latches@, self.finished),
    {
        latches.is_fired(self.finished)
    }

    /// Cancels the offload and consumes the lease.
    pub fn cancel(self, latches: &mut LatchTable)
        requires
            old(latches).has(self.cancellation),
        ensures
            final(latches)@ == old(latches)@.update(self.cancellation.0 as int, true),
    {
        let _ = latches.fire(self.cancellation);
    }

    /// Gives up the lease without cancelling.
    pub fn detach(self) -> (disarmed: Guard)
        ensures
            disarmed == (Guard { armed: false, ..self }),
    {
        Guard { cancellation: self.cancellation, finished: self.finished, armed: false }
    }

    /// Waits for completion or for cancellation at teardown.
    pub fn finished(&self, latches: &LatchTable) -> (polled: Poll<()>)
        ensures
            polled == if is_set(latches@, self.finished) {
                Poll::Ready(())
            } else {
                Poll::Pending
            },
    {
        if latches.is_fired(self.finished) {
            Poll::Ready(())
        } else {
            Poll::Pending
        }
    }

    /// Drops the lease: one that is still armed cancels.
    pub fn release(self, latches: &mut LatchTable)
        requires
            old(latches).has(self.cancellation),
        ensures
            final(latches)@ == if self.armed {
                old(latches)@.update(self.cancellation.0 as int, true)
            } else {
                old(latches)@
            },
    {
        if self.armed {
            let _ = latches.fire(self.cancellation);
        }
    }
}

/// A blocking operation whose thread may observe the actor's cancellation.
#[must_use]
#[derive(Debug)]
pub struct Blocking<W> {
    /// The running work.
    pub future: W,
    /// Fires when cancellation is requested.
    pub cancellation: LatchId,
    /// Whether the operation has returned.
    pub completed: bool,
}

impl<W> Blocking<W> {
    /// Notes that the work's poll returned `polled`, and passes it on.
    pub fn poll<T>(&mut self, polled: Poll<T>) -> (result: Poll<T>)
        ensures
            result == polled,
            *final(self) == (Blocking {
                completed: old(self).completed || polled is Ready,
                ..*old(self)
            }),
    {
        match polled {
            Poll::Ready(value) => {
                self.completed = true;
                Poll::Ready(value)
            },
            Poll::Pending => Poll::Pending,
        }
    }

    /// Drops the operation: unfinished work is asked to stop.
    pub fn release(self, latches: &mut LatchTable)
        requires
            old(latches).has(self.cancellation),
        ensures
            final(latches)@ == if self.completed {
                old(latches)@
            } else {
                old(latches)@.update(self.cancellation.0 as int, true)
            },
    {
        if !self.completed {
            let _ = latches.fire(self.cancellation);
        }
    }
}

/// Whether a poll left its future waiting.
#[derive(Clone, Copy, Debug, PartialEq, Eq, Structural)]
pub enum OffloadPoll {
    /// It has to be polled again.
    Pending,
    /// It is done.
    Finished,
}

/// An offload's future between polls and cancellations.
///
/// Polling takes the future out. Cancellation takes an idle future, or marks a
/// poll in progress so that its poller disposes of it.
#[derive(Debug)]
pub struct SharedOffloadState<W> {
    /// The idle future.
    pub future: Option<W>,
    /// Whether a poll is in progress.
    pub polling: bool,
    /// Whether cancellation was requested.
    pub cancelled: bool,
    /// Fires when the work has finished.
    pub finished: LatchId,
    /// Whether the wake that `finished` owes has returned.
    pub published: bool,
}

/// What one poll of an offload owes, in this order.
#[derive(Debug)]
pub struct OffloadStep<W> {
    /// A panic to retain.
    pub record: Option<PanicPayload>,
    /// A future to dispose of.
    pub dispose: Option<W>,
    /// Whether the work is done and its completion is to be announced.
    pub finish: bool,
    /// The poll's result.
    pub result: Poll<()>,
}

impl<W> SharedOffloadState<W> {
    /// An offload that was not polled yet.
    pub fn new(future: W, finished: LatchId) -> (state: SharedOffloadState<W>)
        ensures
            state == (SharedOffloadState {
                future: Some(future),
                polling: false,
                cancelled: false,
                finished,
                published: false,
            }),
    {
        SharedOffloadState {
            future: Some(future),
            polling: false,
            cancelled: false,
            finished,
            published: false,
        }
    }

    /// Takes the future for a poll, unless the offload was cancelled or is
    /// being polled. An absent future claims no poller.
    pub fn take_for_poll(&mut self) -> (future: Option<W>)
        ensures
            old(self).cancelled || old(self).polling ==> future is None && *final(self)
                == *old(self),
            !old(self).cancelled && !old(self).polling ==> future == old(self).future
                && *final(self) == (SharedOffloadState {
                future: None,
                polling: old(self).future is Some,
                ..*old(self)
            }),
    {
        if self.cancelled || self.polling {
            return None;
        }
        let future = self.future.take();
        self.polling = future.is_some();
        future
    }

    /// Ends a poll: keeps a future that has to wait, hands back one to dispose
    /// of. A future that is already kept is never overwritten.
    pub fn finish_poll(&mut self, future: W, outcome: OffloadPoll) -> (dispose: Option<W>)
        ensures
            ({
                let kept = outcome == OffloadPoll::Pending && !old(self).cancelled
                    && old(self).future is None;
                &&& dispose == if kept {
                    None
                } else {
                    Some(future)
                }
                &&& *final(self) == (SharedOffloadState {
                    future: if kept {
                        Some(future)
                    } else {
                        old(self).future
                    },
                    polling: false,
                    ..*old(self)
                })
            }),
    {
        self.polling = false;
        match outcome {
            OffloadPoll::Pending => {
                if !self.cancelled && self.future.is_none() {
                    self.future = Some(future);
                    None
                } else {
                    Some(future)
                }
            },
            OffloadPoll::Finished => Some(future),
        }
    }

    /// Ends a poll of `future` that came to `polled`.
    pub fn after_poll(&mut self, future: W, polled: Caught<()>) -> (step: OffloadStep<W>)
        ensures
            ({
                let kept = polled is Pending && !old(self).cancelled && old(self).future is None;
                &&& *final(self) == (SharedOffloadState {
                    future: if kept {
                        Some(future)
                    } else {
                        old(self).future
                    },
                    polling: false,
                    ..*old(self)
                })
                &&& step.dispose == if kept {
                    None
                } else {
                    Some(future)
                }
                &&& step.finish == !kept
                &&& step.result == if kept {
                    Poll::Pending
                } else {
                    Poll::Ready(())
                }
                &&& step.record == match polled {
                    Caught::Panicked(payload) => Some(payload),
                    _ => None,
                }
            }),
    {
        match polled {
            Caught::Pending => {
                let dispose = self.finish_poll(future, OffloadPoll::Pending);
                if dispose.is_some() {
                    OffloadStep { record: None, dispose, finish: true, result: Poll::Ready(()) }
                } else {
                    OffloadStep { record: None, dispose, finish: false, result: Poll::Pending }
                }
            },
            Caught::Ready(_) => {
                let dispose = self.finish_poll(future, OffloadPoll::Finished);
                OffloadStep { record: None, dispose, finish: true, result: Poll::Ready(()) }
            },
            Caught::Panicked(payload) => {
                let dispose = self.finish_poll(future, OffloadPoll::Finished);
                OffloadStep {
                    record: Some(payload),
                    dispose,
                    finish: true,
                    result: Poll::Ready(()),
                }
            },
        }
    }

    /// Claims the completion announcement; whoever claims it runs the wake and
    /// then publishes.
    pub fn fire_finished(&self, latches: &mut LatchTable) -> (claimed: bool)
        requires
            old(latches).has(self.finished),
        ensures
            claimed == !is_set(old(latches)@, self.finished),
            final(latches)@ == old(latches)@.update(self.finished.0 as int, true),
    {
        latches.fire(self.finished)
    }

    /// Notes that the claimed wake has returned, its panic retained.
    pub fn publish_finished(&mut self)
        ensures
            *final(self) == (SharedOffloadState { published: true, ..*old(self) }),
    {
        self.published = true;
    }

    /// Whether completion was announced and the wake has returned. The latch
    /// fires before the wake runs, so only this may retire the offload.
    pub fn finished_published(&self) -> (published: bool)
        ensures
            published == self.published,
    {
        self.published
    }

    /// Requests cancellation; hands back an idle future to dispose of.
    pub fn cancel(&mut self) -> (dispose: Option<W>)
        ensures
            dispose == if old(self).polling {
                None
            } else {
                old(self).future
            },
            *final(self) == (SharedOffloadState {
                cancelled: true,
                future: if old(self).polling {
                    old(self).future
                } else {
                    None
                },
                ..*old(self)
            }),
    {
        self.cancelled = true;
        if self.polling {
            None
        } else {
            self.future.take()
        }
    }
}

/// What is kept of one offload the incarnation started.
#[derive(Debug)]
pub struct OffloadResource<W> {
    /// Fires when cancellation is requested.
    pub cancellation: LatchId,
    /// Fires when the work has finished.
    pub finished: LatchId,
    /// The work, unless it was never attempted.
    pub state: Option<SharedOffloadState<W>>,
    /// The task that drives it.
    pub task: Option<u64>,
}

/// One step of cancelling an offload.
#[derive(Debug)]
pub enum CancelStep<W> {
    /// Wake those who wait on this latch.
    Notify(LatchId),
    /// Publish the completion of the offload with this cancellation latch: the
    /// wake before it has returned, its panic retained.
    Publish(LatchId),
    /// Destroy the idle future.
    Dispose(W),
    /// Abort the driving task.
    Abort(u64),
}

impl<W> OffloadResource<W> {
    /// Whether the offload may leave the ledger: its completion wake has
    /// returned, or, for work never attempted, its latch has fired.
    pub open spec fn retirable(self, latches: Seq<bool>) -> bool {
        match self.state {
            Some(state) => state.published,
            None => is_set(latches, self.finished),
        }
    }

    /// Whether the offload may leave the ledger.
    pub fn is_retirable(&self, latches: &LatchTable) -> (retirable: bool)
        ensures
            retirable == self.retirable(latches@),
    {
        match &self.state {
            Some(state) => state.finished_published(),
            None => latches.is_fired(self.finished),
        }
    }

    /// Whether the offload's latches exist, and its work announces completion
    /// on the resource's own.
    pub open spec fn known_to(self, latches: LatchTable) -> bool {
        &&& latches.has(self.cancellation)
        &&& latches.has(self.finished)
        &&& self.state matches Some(state) ==> state.finished == self.finished
    }

    /// The steps that cancelling takes: request cancellation, dispose of idle
    /// work, announce completion once and publish it, abort the task.
    pub open spec fn cancel_steps(self, latches: Seq<bool>) -> Seq<CancelStep<W>> {
        (if is_set(latches, self.cancellation) {
            seq![]
        } else {
            seq![CancelStep::Notify(self.cancellation)]
        }) + (match self.state {
            Some(state) => if !state.polling && state.future is Some {
                seq![CancelStep::Dispose(state.future->Some_0)]
            } else {
                seq![]
            },
            None => seq![],
        }) + (if self.state is Some && !is_set(
            latches.update(self.cancellation.0 as int, true),
            self.finished,
        ) {
            seq![CancelStep::Notify(self.finished), CancelStep::Publish(self.cancellation)]
        } else {
            seq![]
        }) + (match self.task {
            Some(task) => seq![CancelStep::Abort(task)],
            None => seq![],
        }) + (if self.state is None && !is_set(
            latches.update(self.cancellation.0 as int, true),
            self.finished,
        ) {
            seq![CancelStep::Notify(self.finished)]
        } else {
            seq![]
        })
    }

    /// The resource once it was cancelled.
    pub open spec fn cancelled(self) -> OffloadResource<W> {
        OffloadResource {
            state: match self.state {
                Some(state) => Some(
                    SharedOffloadState {
                        cancelled: true,
                        future: if state.polling {
                            state.future
                        } else {
                            None
                        },
                        ..state
                    },
                ),
                None => None,
            },
            ..self
        }
    }

    /// The resource once the completion of the offload with this cancellation
    /// latch was published.
    pub open spec fn published(self, cancellation: LatchId) -> OffloadResource<W> {
        OffloadResource {
            state: match self.state {
                Some(state) => Some(
                    SharedOffloadState {
                        published: state.published || self.cancellation == cancellation,
                        ..state
                    },
                ),
                None => None,
            },
            ..self
        }
    }

    /// Notes that the completion of the offload with this cancellation latch
    /// was published.
    pub fn publish_finished(&mut self, cancellation: LatchId)
        ensures
            *final(self) == old(self).published(cancellation),
    {
        if self.cancellation.0 == cancellation.0 {
            if let Some(state) = &mut self.state {
                state.publish_finished();
            }
        }
    }

    /// Cancels the offload. Every latch fires; the steps say what the caller
    /// runs, in order, each behind its own boundary.
    pub fn cancel(&mut self, latches: &mut LatchTable) -> (steps: Vec<CancelStep<W>>)
        requires
            old(self).known_to(*old(latches)),
        ensures
            *final(self) == old(self).cancelled(),
            steps@ == old(self).cancel_steps(old(latches)@),
            final(latches)@ == old(latches)@.update(old(self).cancellation.0 as int, true).update(
                old(self).finished.0 as int,
                true,
            ),
    {
        let mut steps: Vec<CancelStep<W>> = Vec::new();
        if latches.fire(self.cancellation) {
            steps.push(CancelStep::Notify(self.cancellation));
        }
        let mut taken: Option<SharedOffloadState<W>> = None;
        core::mem::swap(&mut taken, &mut self.state);
        if let Some(mut state) = taken {
            if let Some(future) = state.cancel() {
                steps.push(CancelStep::Dispose(future));
            }
            if state.fire_finished(latches) {
                steps.push(CancelStep::Notify(self.finished));
                steps.push(CancelStep::Publish(self.cancellation));
            }
            self.state = Some(state);
        }
        if let Some(task) = self.task {
            steps.push(CancelStep::Abort(task));
        }
        if latches.fire(self.finished) {
            steps.push(CancelStep::Notify(self.finished));
        }
        proof {
            let base = old(latches)@.update(old(self).cancellation.0 as int, true);
            assert(base.update(old(self).finished.0 as int, true).update(
                old(self).finished.0 as int,
                true,
            ) =~= base.update(old(self).finished.0 as int, true));
            assert(steps@ =~= old(self).cancel_steps(old(latches)@));
        }
        steps
    }
}

/// Cancelling an offload again destroys nothing more.
pub proof fn law_repeated_cancellation_is_inert<W>(
    resource: OffloadResource<W>,
    latches: Seq<bool>,
)
    requires
        resource.cancellation.0 < latches.len(),
        resource.finished.0 < latches.len(),
        resource.state matches Some(state) ==> !state.polling,
    ensures
        ({
            let fired = latches.update(resource.cancellation.0 as int, true).update(
                resource.finished.0 as int,
                true,
            );
            let again = resource.cancelled().cancel_steps(fired);
            &&& forall|i: int| 0 <= i < again.len() ==> (#[trigger] again[i]) is Abort
            &&& resource.cancelled().cancelled() == resource.cancelled()
        }),
{
}

/// A cancelled offload may leave the ledger once its steps have run: whoever
/// announces its completion publishes it, and work never attempted needs no
/// publication.
pub proof fn law_a_cancelled_offload_leaves_the_ledger<W>(
    resource: OffloadResource<W>,
    latches: Seq<bool>,
)
    requires
        resource.cancellation.0 < latches.len(),
        resource.finished.0 < latches.len(),
    ensures
        ({
            let fired = latches.update(resource.cancellation.0 as int, true).update(
                resource.finished.0 as int,
                true,
            );
            let steps = resource.cancel_steps(latches);
            let announces = resource.state is Some && !is_set(
                latches.update(resource.cancellation.0 as int, true),
                resource.finished,
            );
            &&& steps.contains(CancelStep::Publish(resource.cancellation)) <==> announces
            &&& announces ==> resource.cancelled().published(resource.cancellation).retirable(
                fired,
            )
            &&& resource.state is None ==> resource.cancelled().retirable(fired)
        }),
{
    let fired = latches.update(resource.cancellation.0 as int, true);
    let first: Seq<CancelStep<W>> = if is_set(latches, resource.cancellation) {
        seq![]
    } else {
        seq![CancelStep::Notify(resource.cancellation)]
    };
    let second: Seq<CancelStep<W>> = match resource.state {
        Some(state) => if !state.polling && state.future is Some {
            seq![CancelStep::Dispose(state.future->Some_0)]
        } else {
            seq![]
        },
        None => seq![],
    };
    if resource.state is Some && !is_set(fired, resource.finished) {
        assert(resource.cancel_steps(latches)[(first + second).len() as int
            + 1] == CancelStep::<W>::Publish(resource.cancellation));
    }
}

/// A future is never lost: after a poll it is kept, or handed back to be
/// destroyed, and a cancelled offload keeps none.
pub proof fn law_a_polled_future_is_kept_or_returned<W>(
    before: SharedOffloadState<W>,
    after: SharedOffloadState<W>,
    future: W,
    polled_pending: bool,
    dispose: Option<W>,
)
    requires
        before.future is None,
        ({
            let kept = polled_pending && !before.cancelled;
            &&& dispose == if kept {
                None
            } else {
                Some(future)
            }
            &&& after == (SharedOffloadState {
                future: if kept {
                    Some(future)
                } else {
                    before.future
                },
                polling: false,
                ..before
            })
        }),
    ensures
        after.future == Some(future) <==> dispose is None,
        before.cancelled ==> after.future is None && dispose == Some(future),
{
}

} // verus!
