//! Panic containment and the one cleanup route of a raw incarnation.

use crate::poll::Poll;
use vstd::prelude::*;

verus! {

/// Names a caught panic's payload.
#[derive(Clone, Copy, Debug, PartialEq, Eq, Structural, Hash)]
pub struct PanicPayload(pub u64);

/// Retains the first panic of an incarnation's cleanup.
#[derive(Debug)]
pub struct PanicSlot {
    payload: Option<PanicPayload>,
}

/// What a first-wins slot holds after another panic.
pub open spec fn first_of(held: Option<PanicPayload>, next: Option<PanicPayload>) -> Option<
    PanicPayload,
> {
    if held is Some {
        held
    } else {
        next
    }
}

impl PanicSlot {
    /// The retained panic.
    pub closed spec fn view(&self) -> Option<PanicPayload> {
        self.payload
    }

    /// An empty slot.
    pub fn new() -> (slot: PanicSlot)
        ensures
            slot@ is None,
    {
        PanicSlot { payload: None }
    }

    /// Retains `payload` unless one is retained already; hands back the one to
    /// discard.
    pub fn record(&mut self, payload: PanicPayload) -> (rejected: Option<PanicPayload>)
        ensures
            final(self)@ == first_of(old(self)@, Some(payload)),
            rejected == if old(self)@ is Some {
                Some(payload)
            } else {
                None
            },
    {
        if self.payload.is_none() {
            self.payload = Some(payload);
            None
        } else {
            Some(payload)
        }
    }

    /// Takes the retained panic.
    pub fn take(&mut self) -> (payload: Option<PanicPayload>)
        ensures
            payload == old(self)@,
            final(self)@ is None,
    {
        self.payload.take()
    }

    /// Puts back a panic known to precede whatever reached the slot since;
    /// hands back the one to discard.
    pub fn restore_first(&mut self, payload: PanicPayload) -> (displaced: Option<PanicPayload>)
        ensures
            final(self)@ == Some(payload),
            displaced == old(self)@,
    {
        let displaced = self.payload.take();
        self.payload = Some(payload);
        displaced
    }

    /// Retains the first panic of a run of cleanup steps, unless one is
    /// retained already.
    pub fn record_all(&mut self, outcomes: &Vec<Option<PanicPayload>>)
        ensures
            final(self)@ == first_of(old(self)@, first_panic(outcomes@)),
    {
        let mut index: usize = 0;
        while index < outcomes.len()
            invariant
                index <= outcomes@.len(),
                self@ == first_of(old(self)@, first_panic(outcomes@.take(index as int))),
            decreases outcomes@.len() - index,
        {
            if let Some(payload) = outcomes[index] {
                let _ = self.record(payload);
            }
            proof {
                assert(outcomes@.take(index + 1).drop_last() =~= outcomes@.take(index as int));
            }
            index = index + 1;
        }
        proof {
            assert(outcomes@.take(index as int) =~= outcomes@);
        }
    }
}

/// The first panic among the outcomes of cleanup steps.
pub open spec fn first_panic(outcomes: Seq<Option<PanicPayload>>) -> Option<PanicPayload>
    decreases outcomes.len(),
{
    if outcomes.len() == 0 {
        None
    } else {
        first_of(first_panic(outcomes.drop_last()), outcomes.last())
    }
}

/// The first panic is one that was raised, and none comes before it.
pub proof fn law_the_first_panic_wins(outcomes: Seq<Option<PanicPayload>>)
    ensures
        first_panic(outcomes) is None <==> forall|i: int|
            0 <= i < outcomes.len() ==> (#[trigger] outcomes[i]) is None,
        first_panic(outcomes) is Some ==> exists|i: int|
            0 <= i < outcomes.len() && #[trigger] outcomes[i] == first_panic(outcomes) && (
            forall|j: int| 0 <= j < i ==> (#[trigger] outcomes[j]) is None),
    decreases outcomes.len(),
{
    if outcomes.len() > 0 {
        let fewer = outcomes.drop_last();
        law_the_first_panic_wins(fewer);
        let last = outcomes.len() - 1;
        assert(outcomes[last] == outcomes.last());
        assert forall|i: int| 0 <= i < last implies outcomes[i] == #[trigger] fewer[i] by {}
        if first_panic(fewer) is Some {
            let i = choose|i: int|
                0 <= i < fewer.len() && #[trigger] fewer[i] == first_panic(fewer) && (forall|j: int|
                    0 <= j < i ==> (#[trigger] fewer[j]) is None);
            assert(outcomes[i] == first_panic(outcomes));
            assert forall|j: int| 0 <= j < i implies (#[trigger] outcomes[j]) is None by {
                assert(fewer[j] is None);
            }
        } else {
            assert forall|j: int| 0 <= j < last implies (#[trigger] outcomes[j]) is None by {
                assert(fewer[j] is None);
            }
        }
    }
}

/// The panics an incarnation ends with.
#[derive(Clone, Copy, Debug, PartialEq, Eq, Structural)]
pub struct UnwindPanics {
    /// The actor's own panic.
    pub primary: Option<PanicPayload>,
    /// The first panic of its cleanup.
    pub cleanup: Option<PanicPayload>,
}

impl UnwindPanics {
    /// The panic to resume: the actor's own, else the cleanup's.
    pub fn preferred(self) -> (resumed: Option<PanicPayload>)
        ensures
            resumed == first_of(self.primary, self.cleanup),
    {
        if self.primary.is_some() {
            self.primary
        } else {
            self.cleanup
        }
    }
}

/// What polling a future behind a panic boundary came to.
#[derive(Debug)]
pub enum Caught<T> {
    /// It returned a value.
    Ready(T),
    /// It has to wait.
    Pending,
    /// It panicked.
    Panicked(PanicPayload),
}

/// A panic boundary that owns its future and destroys it before its output is
/// released.
#[derive(Debug)]
pub struct CatchUnwindFuture<F> {
    future: Option<F>,
}

/// What a panic boundary releases once its future was destroyed.
#[derive(Debug)]
pub struct Released<T> {
    /// The boundary's result.
    pub result: Poll<Result<T, PanicPayload>>,
    /// An output that is discarded, its own panic contained.
    pub discarded_output: Option<T>,
    /// A panic that is discarded.
    pub discarded_panic: Option<PanicPayload>,
}

impl<F> CatchUnwindFuture<F> {
    /// The future, while it is alive.
    pub closed spec fn view(&self) -> Option<F> {
        self.future
    }

    /// A boundary around `future`.
    pub fn new(future: F) -> (boundary: CatchUnwindFuture<F>)
        ensures
            boundary@ == Some(future),
    {
        CatchUnwindFuture { future: Some(future) }
    }

    /// Takes the future out to be destroyed, unless it has to wait.
    pub fn retire<T>(&mut self, polled: &Caught<T>) -> (retired: Option<F>)
        ensures
            *polled is Pending ==> retired is None && final(self)@ == old(self)@,
            !(*polled is Pending) ==> retired == old(self)@ && final(self)@ is None,
    {
        match polled {
            Caught::Pending => None,
            _ => self.future.take(),
        }
    }
}

/// Releases a boundary's result. `dropped` is what destroying the future
/// raised: it replaces a completed output, and loses to a panic of the poll.
pub fn release<T>(polled: Caught<T>, dropped: Option<PanicPayload>) -> (released: Released<T>)
    ensures
        polled matches Caught::Pending ==> released.result is Pending
            && released.discarded_output is None && released.discarded_panic is None,
        polled matches Caught::Ready(value) ==> match dropped {
            None => released.result == Poll::Ready(Ok::<T, PanicPayload>(value))
                && released.discarded_output is None && released.discarded_panic is None,
            Some(payload) => released.result == Poll::Ready(Err::<T, PanicPayload>(payload))
                && released.discarded_output == Some(value) && released.discarded_panic is None,
        },
        polled matches Caught::Panicked(payload) ==> released.result == Poll::Ready(
            Err::<T, PanicPayload>(payload),
        ) && released.discarded_output is None && released.discarded_panic == dropped,
{
    match polled {
        Caught::Pending => Released {
            result: Poll::Pending,
            discarded_output: None,
            discarded_panic: None,
        },
        Caught::Ready(value) => match dropped {
            None => Released {
                result: Poll::Ready(Ok(value)),
                discarded_output: None,
                discarded_panic: None,
            },
            Some(payload) => Released {
                result: Poll::Ready(Err(payload)),
                discarded_output: Some(value),
                discarded_panic: None,
            },
        },
        Caught::Panicked(payload) => Released {
            result: Poll::Ready(Err(payload)),
            discarded_output: None,
            discarded_panic: dropped,
        },
    }
}

/// A user's value held so that it is consumed or disposed of, never dropped in
/// passing.
#[derive(Debug)]
pub struct Contained<T> {
    value: T,
}

impl<T> Contained<T> {
    /// The value.
    pub closed spec fn view(&self) -> T {
        self.value
    }

    /// Takes hold of `value`.
    pub fn new(value: T) -> (contained: Contained<T>)
        ensures
            contained@ == value,
    {
        Contained { value }
    }

    /// Looks at the value.
    pub fn get(&self) -> (value: &T)
        ensures
            *value == self@,
    {
        &self.value
    }

    /// Releases the value to its consumer.
    pub fn into_inner(self) -> (value: T)
        ensures
            value == self@,
    {
        self.value
    }
}

} // verus!
