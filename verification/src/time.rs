//! Spans, instants and deadlines as whole nanoseconds.

use vstd::prelude::*;

verus! {

/// The longest representable span: `u64::MAX` seconds and 999_999_999 nanoseconds.
pub const MAX_SPAN_NANOS: u128 = 18_446_744_073_709_551_615_999_999_999;

/// The last representable instant: `i64::MAX` seconds and 999_999_999 nanoseconds.
pub const MAX_INSTANT_NANOS: u128 = 9_223_372_036_854_775_807_999_999_999;

/// A non-negative span of time.
#[derive(Clone, Copy, Debug, PartialEq, Eq, Structural, Hash)]
pub struct Duration {
    nanos: u128,
}

impl Duration {
    /// Length in nanoseconds.
    pub closed spec fn view(&self) -> nat {
        self.nanos as nat
    }

    #[verifier::type_invariant]
    spec fn bounded(self) -> bool {
        self.nanos <= MAX_SPAN_NANOS
    }

    /// The empty span.
    pub fn zero() -> (span: Duration)
        ensures
            span@ == 0,
    {
        Duration { nanos: 0 }
    }

    /// The longest span.
    pub fn max_value() -> (span: Duration)
        ensures
            span@ == MAX_SPAN_NANOS,
    {
        Duration { nanos: MAX_SPAN_NANOS }
    }

    /// A span of whole seconds.
    pub fn from_secs(secs: u64) -> (span: Duration)
        ensures
            span@ == secs * 1_000_000_000,
    {
        Duration { nanos: secs as u128 * 1_000_000_000 }
    }

    /// A span of whole milliseconds.
    pub fn from_millis(millis: u64) -> (span: Duration)
        ensures
            span@ == millis * 1_000_000,
    {
        Duration { nanos: millis as u128 * 1_000_000 }
    }

    /// A span of nanoseconds, cut off at the longest span.
    pub fn from_nanos(nanos: u128) -> (span: Duration)
        ensures
            span@ == if nanos <= MAX_SPAN_NANOS { nanos as nat } else { MAX_SPAN_NANOS as nat },
    {
        if nanos <= MAX_SPAN_NANOS {
            Duration { nanos }
        } else {
            Duration { nanos: MAX_SPAN_NANOS }
        }
    }

    /// The span's length in nanoseconds.
    pub fn as_nanos(&self) -> (nanos: u128)
        ensures
            nanos == self@,
            nanos <= MAX_SPAN_NANOS,
    {
        proof {
            use_type_invariant(&*self);
        }
        self.nanos
    }

    /// Whether the span is empty.
    pub fn is_zero(&self) -> (empty: bool)
        ensures
            empty == (self@ == 0),
    {
        self.nanos == 0
    }

    /// Whether this span is shorter than `other`.
    pub fn shorter_than(&self, other: &Duration) -> (shorter: bool)
        ensures
            shorter == (self@ < other@),
    {
        self.nanos < other.nanos
    }

    /// The shorter of two spans.
    pub fn at_most(self, limit: Duration) -> (span: Duration)
        ensures
            span == if limit@ < self@ { limit } else { self },
    {
        if limit.nanos < self.nanos {
            limit
        } else {
            self
        }
    }
}

impl Duration {
    /// The span of `nanos` nanoseconds.
    pub closed spec fn of(nanos: nat) -> Duration {
        Duration { nanos: nanos as u128 }
    }

    /// What `of` is.
    pub broadcast proof fn lemma_of(nanos: nat)
        requires
            nanos <= MAX_SPAN_NANOS,
        ensures
            (#[trigger] Duration::of(nanos))@ == nanos,
    {
    }
}

/// Spans of equal length are equal.
pub broadcast proof fn lemma_duration_extensional(left: Duration, right: Duration)
    requires
        #[trigger] left@ == #[trigger] right@,
    ensures
        left == right,
{
}

/// A point on the runtime's monotonic clock.
#[derive(Clone, Copy, Debug, PartialEq, Eq, Structural, Hash)]
pub struct Instant {
    nanos: u128,
}

impl Instant {
    /// Nanoseconds since the clock's origin.
    pub closed spec fn view(&self) -> nat {
        self.nanos as nat
    }

    #[verifier::type_invariant]
    spec fn bounded(self) -> bool {
        self.nanos <= MAX_INSTANT_NANOS
    }

    /// The instant `nanos` nanoseconds after the clock's origin, cut off at the
    /// last representable instant.
    pub fn from_nanos(nanos: u128) -> (instant: Instant)
        ensures
            instant@ == if nanos <= MAX_INSTANT_NANOS {
                nanos as nat
            } else {
                MAX_INSTANT_NANOS as nat
            },
    {
        if nanos <= MAX_INSTANT_NANOS {
            Instant { nanos }
        } else {
            Instant { nanos: MAX_INSTANT_NANOS }
        }
    }

    /// Nanoseconds since the clock's origin.
    pub fn as_nanos(&self) -> (nanos: u128)
        ensures
            nanos == self@,
            nanos <= MAX_INSTANT_NANOS,
    {
        proof {
            use_type_invariant(&*self);
        }
        self.nanos
    }

    /// The instant `span` later, or `None` past the last representable one.
    pub fn checked_add(&self, span: Duration) -> (later: Option<Instant>)
        ensures
            later == self.later(span),
    {
        proof {
            use_type_invariant(&*self);
        }
        let length: u128 = span.as_nanos();
        let sum: u128 = self.nanos + length;
        if sum <= MAX_INSTANT_NANOS {
            Some(Instant { nanos: sum })
        } else {
            None
        }
    }

    /// The instant `span` later, where the clock can represent it.
    pub closed spec fn later(self, span: Duration) -> Option<Instant> {
        if self.nanos + span.nanos <= MAX_INSTANT_NANOS {
            Some(Instant { nanos: (self.nanos + span.nanos) as u128 })
        } else {
            None
        }
    }

    /// What `later` is.
    pub broadcast proof fn lemma_later(self, span: Duration)
        ensures
            (#[trigger] self.later(span)) is Some <==> self@ + span@ <= MAX_INSTANT_NANOS,
            self.later(span) matches Some(instant) ==> instant@ == self@ + span@,
    {
    }

    /// Whether this instant comes strictly before `other`.
    pub fn before(&self, other: &Instant) -> (earlier: bool)
        ensures
            earlier == (self@ < other@),
    {
        self.nanos < other.nanos
    }
}

/// Instants equally far from the origin are equal.
pub broadcast proof fn lemma_instant_extensional(left: Instant, right: Instant)
    requires
        #[trigger] left@ == #[trigger] right@,
    ensures
        left == right,
{
}

/// A captured point in time, or none where the clock cannot represent it.
#[derive(Clone, Copy, Debug, PartialEq, Eq, Structural, Hash)]
pub struct Deadline {
    /// The instant it falls on; `None` never arrives.
    pub at: Option<Instant>,
}

impl Deadline {
    /// The deadline `width` after `now`; an unrepresentable sum never arrives.
    pub fn after(now: Instant, width: Duration) -> (deadline: Deadline)
        ensures
            deadline.at == now.later(width),
    {
        Deadline { at: now.checked_add(width) }
    }

    /// The instant the deadline falls on.
    pub fn instant(&self) -> (at: Option<Instant>)
        ensures
            at == self.at,
    {
        self.at
    }

    /// Whether the deadline lies strictly in the past.
    pub open spec fn overdue(self, now: Instant) -> bool {
        self.at matches Some(at) && at@ < now@
    }

    /// Whether the deadline has arrived.
    pub open spec fn elapsed(self, now: Instant) -> bool {
        self.at matches Some(at) && at@ <= now@
    }

    /// Whether the deadline lies strictly in the past.
    pub fn is_overdue(&self, now: Instant) -> (late: bool)
        ensures
            late == self.overdue(now),
    {
        match self.at {
            Some(at) => at.before(&now),
            None => false,
        }
    }

    /// Whether the deadline has arrived.
    pub fn is_elapsed(&self, now: Instant) -> (arrived: bool)
        ensures
            arrived == self.elapsed(now),
    {
        match self.at {
            Some(at) => !now.before(&at),
            None => false,
        }
    }
}

/// The width of one operation's deadline, fixed before its first poll.
#[derive(Clone, Copy, Debug, PartialEq, Eq, Structural, Hash)]
pub struct DeadlineBudget {
    /// Time allowed from the first poll.
    pub width: Duration,
}

impl DeadlineBudget {
    /// A budget of the given width.
    pub fn new(width: Duration) -> (budget: DeadlineBudget)
        ensures
            budget.width == width,
    {
        DeadlineBudget { width }
    }

    /// The budget's width.
    pub fn duration(&self) -> (width: Duration)
        ensures
            width == self.width,
    {
        self.width
    }

    /// Whether the budget allows no time at all.
    pub fn is_zero(&self) -> (empty: bool)
        ensures
            empty == (self.width@ == 0),
    {
        self.width.is_zero()
    }
}

/// A deadline arrives at its own instant and is overdue only strictly after it;
/// one that falls past the end of the clock does neither.
pub proof fn law_a_deadline_arrives_before_it_is_overdue(deadline: Deadline, now: Instant)
    ensures
        deadline.at is None ==> !deadline.elapsed(now) && !deadline.overdue(now),
        deadline.at matches Some(at) ==> {
            &&& now@ < at@ ==> !deadline.elapsed(now) && !deadline.overdue(now)
            &&& now@ == at@ ==> deadline.elapsed(now) && !deadline.overdue(now)
            &&& now@ > at@ ==> deadline.elapsed(now) && deadline.overdue(now)
        },
{
}

/// An instant plus a span is that many nanoseconds later, or nothing where the
/// clock ends before.
pub proof fn law_a_later_instant_is_a_span_away(now: Instant, span: Duration)
    ensures
        now@ + span@ <= MAX_INSTANT_NANOS ==> (now.later(span) matches Some(at) && at@ == now@
            + span@),
        now@ + span@ > MAX_INSTANT_NANOS ==> now.later(span) is None,
{
}

} // verus!
