//! Supervision policy and validated configuration data.

use crate::exit::Exit;
use crate::identity::{clone_path, ChildId};
use crate::time::{lemma_duration_extensional, Duration};
use vstd::prelude::*;
use vstd::std_specs::cmp::PartialEqSpecImpl;

pub mod laws;

verus! {

/// Whether a scope has fixed ordered membership or membership that changes at
/// run time.
#[derive(Clone, Copy, Debug, PartialEq, Eq, Structural)]
pub enum ScopeFlavor {
    /// Fixed and ordered.
    Ordered,
    /// Changing.
    Dynamic,
}

/// A backoff attempt, counted from one, that starts over after a stable
/// incarnation.
#[derive(Clone, Copy, Debug, PartialEq, Eq, Structural, Hash, PartialOrd, Ord)]
pub struct RestartAttempt(pub u64);

/// Restarts scheduled for one child membership.
#[derive(Clone, Copy, Debug, PartialEq, Eq, Structural, Hash, PartialOrd, Ord)]
pub struct RestartCount(pub u64);

/// Restarts charged to one scope incarnation.
#[derive(Clone, Copy, Debug, PartialEq, Eq, Structural, Hash, PartialOrd, Ord)]
pub struct TotalRestarts(pub u64);

/// One more than `value`, or `value` at the numeric limit.
pub open spec fn saturating_bump(value: u64) -> u64 {
    if value < u64::MAX {
        (value + 1) as u64
    } else {
        value
    }
}

impl RestartAttempt {
    /// The state before a restart has been scheduled.
    #[must_use]
    pub fn zero() -> (zero: RestartAttempt)
        ensures
            zero.0 == 0,
    {
        RestartAttempt(0)
    }

    /// The next attempt, saturating at the numeric limit.
    #[must_use]
    pub fn bump(self) -> (next: RestartAttempt)
        ensures
            next.0 == saturating_bump(self.0),
    {
        RestartAttempt(self.0.saturating_add(1))
    }

    /// The attempt's number.
    #[must_use]
    pub fn get(self) -> (value: u64)
        ensures
            value == self.0,
    {
        self.0
    }
}

impl RestartCount {
    /// A membership with no scheduled restarts.
    #[must_use]
    pub fn zero() -> (zero: RestartCount)
        ensures
            zero.0 == 0,
    {
        RestartCount(0)
    }

    /// The next count, saturating at the numeric limit.
    #[must_use]
    pub fn bump(self) -> (next: RestartCount)
        ensures
            next.0 == saturating_bump(self.0),
    {
        RestartCount(self.0.saturating_add(1))
    }

    /// The count's number.
    #[must_use]
    pub fn get(self) -> (value: u64)
        ensures
            value == self.0,
    {
        self.0
    }
}

impl TotalRestarts {
    /// A scope incarnation with no restart charges.
    #[must_use]
    pub fn zero() -> (zero: TotalRestarts)
        ensures
            zero.0 == 0,
    {
        TotalRestarts(0)
    }

    /// The next total, saturating at the numeric limit.
    #[must_use]
    pub fn bump(self) -> (next: TotalRestarts)
        ensures
            next.0 == saturating_bump(self.0),
    {
        TotalRestarts(self.0.saturating_add(1))
    }

    /// The total's number.
    #[must_use]
    pub fn get(self) -> (value: u64)
        ensures
            value == self.0,
    {
        self.0
    }
}

/// A counter never goes back, and stays at the numeric limit once there.
pub proof fn law_restart_counters_never_go_back(value: u64)
    ensures
        saturating_bump(value) >= value,
        value < u64::MAX ==> saturating_bump(value) == value + 1,
        saturating_bump(u64::MAX) == u64::MAX,
{
}

/// Whether a child construction can be recreated after its first incarnation.
#[derive(Clone, Copy, Debug, PartialEq, Eq, Structural)]
pub enum ChildMode {
    /// It can.
    Restartable,
    /// It cannot.
    OneShot,
}

/// The default bounded FIFO mailbox capacity.
pub const DEFAULT_MAILBOX_CAPACITY: usize = 64;

/// The default child shutdown grace, in seconds.
pub const DEFAULT_SHUTDOWN_GRACE_SECS: u64 = 5;

/// The default gated-readiness deadline, in seconds.
pub const DEFAULT_READINESS_DEADLINE_SECS: u64 = 30;

/// The condition under which an exited child is restarted.
#[derive(Clone, Copy, Debug, PartialEq, Eq, Structural, Hash)]
pub enum RestartCondition {
    /// Restart after every exit, including successful completion.
    Always,
    /// Restart only after a failure exit.
    OnFailure,
    /// Never restart.
    Never,
}

/// Whether equal jitter is applied to a backoff delay.
#[derive(Clone, Copy, Debug, PartialEq, Eq, Structural, Hash)]
pub enum Jitter {
    /// Use the derived delay exactly.
    Off,
    /// Select uniformly from the upper half of the derived delay.
    Equal,
}

/// A non-zero number of slots.
#[derive(Clone, Copy, Debug, PartialEq, Eq, Structural, Hash)]
pub struct Capacity {
    slots: usize,
}

impl Capacity {
    /// The number of slots.
    pub closed spec fn view(&self) -> nat {
        self.slots as nat
    }

    #[verifier::type_invariant]
    spec fn non_zero(self) -> bool {
        self.slots > 0
    }

    /// A capacity of `slots`, or `None` for zero.
    pub fn new(slots: usize) -> (capacity: Option<Capacity>)
        ensures
            capacity is Some <==> slots > 0,
            capacity matches Some(value) ==> value@ == slots,
    {
        if slots > 0 {
            Some(Capacity { slots })
        } else {
            None
        }
    }

    /// The capacity of `slots`.
    pub closed spec fn of(slots: usize) -> Capacity {
        Capacity { slots }
    }

    /// What `of` is.
    pub broadcast proof fn lemma_of(slots: usize)
        ensures
            (#[trigger] Capacity::of(slots))@ == slots,
    {
    }

    /// The number of slots.
    pub fn get(&self) -> (slots: usize)
        ensures
            slots == self@,
            slots > 0,
    {
        proof {
            use_type_invariant(&*self);
        }
        self.slots
    }
}

/// Capacities of equally many slots are equal.
pub broadcast proof fn lemma_capacity_extensional(left: Capacity, right: Capacity)
    requires
        #[trigger] left@ == #[trigger] right@,
    ensures
        left == right,
{
}

/// A mailbox policy with its capacity settled.
#[derive(Clone, Copy, Debug, PartialEq, Eq, Structural, Hash)]
pub enum ResolvedMailbox {
    /// Bounded FIFO mailbox.
    Queue(Capacity),
    /// Single latest-value slot.
    Latest,
}

/// The bits of `1.0` as an IEEE 754 double.
pub const ONE_BITS: u64 = 0x3FF0_0000_0000_0000;

/// The bits of positive infinity; finite doubles without a sign come before.
pub const INFINITY_BITS: u64 = 0x7FF0_0000_0000_0000;

/// The bits of `-0.0`; doubles with a sign start here.
pub const SIGN_BITS: u64 = 0x8000_0000_0000_0000;

/// The bits of the largest jitter sample, one machine epsilon below `1.0`.
pub const LAST_SAMPLE_BITS: u64 = 0x3FEF_FFFF_FFFF_FFFE;

/// A jitter sample in the half-open interval from zero to one, as the bits of
/// an IEEE 754 double.
#[derive(Clone, Copy, Debug)]
pub struct JitterSample(pub u64);

impl PartialEq for JitterSample {
    fn eq(&self, other: &JitterSample) -> (equal: bool) {
        self.0 == other.0 || (self.at_lower_edge() && other.at_lower_edge())
    }
}

impl PartialEqSpecImpl for JitterSample {
    open spec fn obeys_eq_spec() -> bool {
        true
    }

    /// Samples compare as numbers: the two zeros are equal.
    open spec fn eq_spec(&self, other: &JitterSample) -> bool {
        self.0 == other.0 || (self.is_zero() && other.is_zero())
    }
}

impl JitterSample {
    /// Whether the sample is zero, with or without a sign.
    pub open spec fn is_zero(self) -> bool {
        self.0 == 0 || self.0 == SIGN_BITS
    }

    /// The sample that `bits` is clamped to: zero for what is negative,
    /// infinite or no number, the last sample for what is past it.
    pub open spec fn clamped(bits: u64) -> u64 {
        if bits > SIGN_BITS || INFINITY_BITS <= bits < SIGN_BITS {
            0
        } else if LAST_SAMPLE_BITS < bits < INFINITY_BITS {
            LAST_SAMPLE_BITS
        } else {
            bits
        }
    }

    /// Clamps the double of the given bits into the interval; what is not
    /// finite becomes zero.
    #[must_use]
    pub fn new(bits: u64) -> (sample: JitterSample)
        ensures
            sample.0 == JitterSample::clamped(bits),
    {
        let finite = bits < INFINITY_BITS || (SIGN_BITS <= bits && bits - SIGN_BITS
            < INFINITY_BITS);
        if !finite {
            return JitterSample(0);
        }
        if bits > SIGN_BITS {
            // Below zero.
            JitterSample(0)
        } else if bits > LAST_SAMPLE_BITS && bits < SIGN_BITS {
            JitterSample(LAST_SAMPLE_BITS)
        } else {
            JitterSample(bits)
        }
    }

    /// Whether the sample is zero.
    pub fn at_lower_edge(self) -> (zero: bool)
        ensures
            zero == self.is_zero(),
    {
        self.0 == 0 || self.0 == SIGN_BITS
    }
}

/// Every sample lies in the interval, and clamping it again changes nothing.
pub proof fn law_samples_stay_in_the_unit_interval(bits: u64)
    ensures
        JitterSample::clamped(bits) <= LAST_SAMPLE_BITS || JitterSample::clamped(bits)
            == SIGN_BITS,
        JitterSample::clamped(bits) < ONE_BITS || JitterSample(
            JitterSample::clamped(bits),
        ).is_zero(),
        JitterSample::clamped(JitterSample::clamped(bits)) == JitterSample::clamped(bits),
{
}

/// An exponential-backoff multiplier, as the bits of an IEEE 754 double.
#[derive(Clone, Copy, Debug, PartialEq, Eq, Structural, Hash)]
pub struct BackoffFactor(pub u64);

impl BackoffFactor {
    /// Whether the factor is finite and at least one.
    pub open spec fn valid(self) -> bool {
        ONE_BITS <= self.0 < INFINITY_BITS
    }

    /// Constructs the factor of the given bits, if it is finite and at least
    /// one.
    pub fn new(bits: u64) -> (factor: Result<BackoffFactor, PolicyError>)
        ensures
            factor == if BackoffFactor(bits).valid() {
                Ok::<BackoffFactor, PolicyError>(BackoffFactor(bits))
            } else {
                Err::<BackoffFactor, PolicyError>(PolicyError::InvalidBackoffFactor)
            },
    {
        match BackoffFactor(bits).validate() {
            Ok(()) => Ok(BackoffFactor(bits)),
            Err(error) => Err(error),
        }
    }

    /// Whether the factor is exactly one.
    pub fn is_one(self) -> (one: bool)
        ensures
            one == (self.0 == ONE_BITS),
    {
        self.0 == ONE_BITS
    }

    /// Rejects a factor that is not finite or below one.
    pub fn validate(self) -> (verdict: Result<(), PolicyError>)
        ensures
            verdict == if self.valid() {
                Ok::<(), PolicyError>(())
            } else {
                Err::<(), PolicyError>(PolicyError::InvalidBackoffFactor)
            },
    {
        if self.0 >= ONE_BITS && self.0 < INFINITY_BITS {
            Ok(())
        } else {
            Err(PolicyError::InvalidBackoffFactor)
        }
    }
}

/// Delay policy for a scheduled restart.
#[derive(Clone, Copy, Debug, PartialEq, Eq, Structural, Hash)]
pub enum Backoff {
    /// Restart without a delay.
    Immediate,
    /// Use a fixed non-zero delay.
    Fixed {
        /// The fixed delay.
        delay: Duration,
        /// Optional equal jitter.
        jitter: Jitter,
    },
    /// Increase the delay exponentially, clamped to `max`.
    Exponential {
        /// The first delay.
        base: Duration,
        /// The per-attempt multiplier.
        factor: BackoffFactor,
        /// The maximum derived delay.
        max: Duration,
        /// Optional equal jitter.
        jitter: Jitter,
    },
}

/// The power of a factor that an attempt's delay is scaled by.
#[derive(Clone, Copy, Debug, PartialEq, Eq, Structural)]
pub struct Growth {
    /// What is scaled.
    pub base: Duration,
    /// The factor.
    pub factor: BackoffFactor,
    /// How often it is applied.
    pub exponent: i32,
    /// The delay at which growth ends.
    pub max: Duration,
}

/// Half of `nanos`, half a nanosecond rounded up.
pub open spec fn half_up(nanos: nat) -> nat {
    (nanos + 1) / 2
}

impl Backoff {
    /// What is wrong with the policy.
    pub open spec fn fault(self) -> Option<PolicyError> {
        match self {
            Backoff::Immediate => None,
            Backoff::Fixed { delay, .. } => if delay@ == 0 {
                Some(PolicyError::ZeroDuration)
            } else {
                None
            },
            Backoff::Exponential { base, factor, max, .. } => if base@ == 0 || max@ == 0 {
                Some(PolicyError::ZeroDuration)
            } else if !factor.valid() {
                Some(PolicyError::InvalidBackoffFactor)
            } else if max@ < base@ {
                Some(PolicyError::BackoffMaximumBeforeBase)
            } else {
                None
            },
        }
    }

    /// The longest delay the policy allows.
    pub open spec fn maximum(self) -> nat {
        match self {
            Backoff::Immediate => 0,
            Backoff::Fixed { delay, .. } => delay@,
            Backoff::Exponential { max, .. } => max@,
        }
    }

    /// Constructs a validated fixed backoff.
    pub fn fixed(delay: Duration, jitter: Jitter) -> (backoff: Result<Backoff, PolicyError>)
        ensures
            backoff == if delay@ == 0 {
                Err::<Backoff, PolicyError>(PolicyError::ZeroDuration)
            } else {
                Ok::<Backoff, PolicyError>(Backoff::Fixed { delay, jitter })
            },
    {
        if delay.is_zero() {
            Err(PolicyError::ZeroDuration)
        } else {
            Ok(Backoff::Fixed { delay, jitter })
        }
    }

    /// Constructs a validated exponential backoff.
    pub fn exponential(
        base: Duration,
        factor: BackoffFactor,
        max: Duration,
        jitter: Jitter,
    ) -> (backoff: Result<Backoff, PolicyError>)
        ensures
            backoff == if base@ == 0 || max@ == 0 {
                Err::<Backoff, PolicyError>(PolicyError::ZeroDuration)
            } else if max@ < base@ {
                Err::<Backoff, PolicyError>(PolicyError::BackoffMaximumBeforeBase)
            } else {
                Ok::<Backoff, PolicyError>(Backoff::Exponential { base, factor, max, jitter })
            },
    {
        if base.is_zero() || max.is_zero() {
            return Err(PolicyError::ZeroDuration);
        }
        if max.shorter_than(&base) {
            return Err(PolicyError::BackoffMaximumBeforeBase);
        }
        Ok(Backoff::Exponential { base, factor, max, jitter })
    }

    /// The scaling that the delay of `attempt` needs: none for the first
    /// attempt, nor where the factor is one, so that those delays are exact.
    pub open spec fn scaling(self, attempt: RestartAttempt) -> Option<Growth> {
        match self {
            Backoff::Exponential { base, factor, max, .. } => if attempt.0 <= 1 || factor.0
                == ONE_BITS {
                None
            } else {
                Some(
                    Growth {
                        base,
                        factor,
                        exponent: if attempt.0 - 1 <= i32::MAX {
                            (attempt.0 - 1) as i32
                        } else {
                            i32::MAX
                        },
                        max,
                    },
                )
            },
            _ => None,
        }
    }

    /// The scaling that the delay of `attempt` needs.
    pub fn growth(self, attempt: RestartAttempt) -> (growth: Option<Growth>)
        ensures
            growth == self.scaling(attempt),
    {
        match self {
            Backoff::Exponential { base, factor, max, .. } => {
                if attempt.0 <= 1 || factor.is_one() {
                    return None;
                }
                let steps: u64 = attempt.0 - 1;
                let exponent: i32 = if steps <= 0x7FFF_FFFF {
                    steps as i32
                } else {
                    i32::MAX
                };
                Some(Growth { base, factor, exponent, max })
            },
            _ => None,
        }
    }

    /// The delay of `attempt` before jitter. `scaled` is what its scaling gave,
    /// in whole nanoseconds, or `None` where that reaches the maximum.
    pub open spec fn derived(self, attempt: RestartAttempt, scaled: Option<Duration>) -> Duration {
        match self {
            Backoff::Immediate => Duration::of(0),
            Backoff::Fixed { delay, .. } => delay,
            Backoff::Exponential { base, max, .. } => {
                let grown = if self.scaling(attempt) is None {
                    base
                } else {
                    match scaled {
                        Some(span) => span,
                        None => max,
                    }
                };
                if max@ < grown@ {
                    max
                } else {
                    grown
                }
            },
        }
    }

    /// The delay of `attempt` before jitter. `scaled` is what its scaling gave,
    /// in whole nanoseconds, or `None` where that reaches the maximum: growth
    /// ends exactly there.
    pub fn derived_delay(self, attempt: RestartAttempt, scaled: Option<Duration>) -> (delay:
        Duration)
        ensures
            delay == self.derived(attempt, scaled),
    {
        broadcast use {lemma_duration_extensional, Duration::lemma_of};

        match self {
            Backoff::Immediate => Duration::zero(),
            Backoff::Fixed { delay, .. } => delay,
            Backoff::Exponential { base, max, .. } => {
                let grown = if self.growth(attempt).is_none() {
                    base
                } else {
                    match scaled {
                        Some(span) => span,
                        None => max,
                    }
                };
                grown.at_most(max)
            },
        }
    }

    /// The jitter the policy asks for.
    pub open spec fn jitter(self) -> Jitter {
        match self {
            Backoff::Immediate => Jitter::Off,
            Backoff::Fixed { jitter, .. } => jitter,
            Backoff::Exponential { jitter, .. } => jitter,
        }
    }

    /// The length of the delay of `attempt`, in nanoseconds.
    pub open spec fn delay_nanos(
        self,
        attempt: RestartAttempt,
        jitter_sample: JitterSample,
        scaled: Option<Duration>,
        jittered: Duration,
    ) -> nat {
        let derived = self.derived(attempt, scaled)@;
        let delay = match self.jitter() {
            Jitter::Off => derived,
            Jitter::Equal => if jitter_sample.is_zero() {
                half_up(derived)
            } else {
                jittered@
            },
        };
        if self.maximum() < delay {
            self.maximum()
        } else {
            delay
        }
    }

    /// Derives the delay for a restart attempt, counted from one.
    ///
    /// Randomness is data from outside, and so is what only floating-point
    /// arithmetic gives: `scaled` as for the delay before jitter, and
    /// `jittered`, that delay times one half plus half the sample, which a
    /// sample of zero does not use: its half is exact. Rounding never takes the
    /// result past the policy's maximum.
    #[must_use]
    pub fn next_delay(
        self,
        attempt: RestartAttempt,
        jitter_sample: JitterSample,
        scaled: Option<Duration>,
        jittered: Duration,
    ) -> (delay: Duration)
        ensures
            delay@ == self.delay_nanos(attempt, jitter_sample, scaled, jittered),
    {
        broadcast use {lemma_duration_extensional, Duration::lemma_of};

        let derived = self.derived_delay(attempt, scaled);
        let (jitter, maximum) = match self {
            Backoff::Immediate => {
                return derived;
            },
            Backoff::Fixed { delay, jitter } => (jitter, delay),
            Backoff::Exponential { max, jitter, .. } => (jitter, max),
        };
        let delay = match jitter {
            Jitter::Off => derived,
            Jitter::Equal => if jitter_sample.at_lower_edge() {
                half_duration(derived)
            } else {
                jittered
            },
        };
        delay.at_most(maximum)
    }

    /// Rejects a policy that its constructors would have.
    pub fn validate(self) -> (verdict: Result<(), PolicyError>)
        ensures
            verdict == match self.fault() {
                Some(error) => Err::<(), PolicyError>(error),
                None => Ok::<(), PolicyError>(()),
            },
    {
        match self {
            Backoff::Immediate => Ok(()),
            Backoff::Fixed { delay, .. } => if delay.is_zero() {
                Err(PolicyError::ZeroDuration)
            } else {
                Ok(())
            },
            Backoff::Exponential { base, factor, max, .. } => {
                if base.is_zero() || max.is_zero() {
                    return Err(PolicyError::ZeroDuration);
                }
                if let Err(error) = factor.validate() {
                    return Err(error);
                }
                if max.shorter_than(&base) {
                    return Err(PolicyError::BackoffMaximumBeforeBase);
                }
                Ok(())
            },
        }
    }
}

/// Halves a delay exactly, half a nanosecond rounded up.
pub fn half_duration(duration: Duration) -> (half: Duration)
    ensures
        half@ == half_up(duration@),
{
    let nanos: u128 = duration.as_nanos();
    Duration::from_nanos((nanos + 1) / 2)
}

/// Whatever floating-point arithmetic gave, a delay never exceeds its policy's
/// maximum, and an immediate restart has none.
pub proof fn law_a_delay_never_exceeds_its_maximum(
    backoff: Backoff,
    attempt: RestartAttempt,
    sample: JitterSample,
    scaled: Option<Duration>,
    jittered: Duration,
)
    ensures
        backoff.delay_nanos(attempt, sample, scaled, jittered) <= backoff.maximum(),
        backoff is Immediate ==> backoff.delay_nanos(attempt, sample, scaled, jittered) == 0,
{
    broadcast use Duration::lemma_of;

}

/// Without jitter a delay is exact where no scaling is needed: a fixed one, the
/// first attempt's, and any attempt's under a factor of one.
pub proof fn law_unscaled_delays_are_exact(
    backoff: Backoff,
    attempt: RestartAttempt,
    sample: JitterSample,
    scaled: Option<Duration>,
    jittered: Duration,
)
    requires
        backoff.fault() is None,
        backoff.jitter() is Off,
    ensures
        backoff matches Backoff::Fixed { delay, .. } ==> backoff.delay_nanos(
            attempt,
            sample,
            scaled,
            jittered,
        ) == delay@,
        backoff matches Backoff::Exponential { base, factor, .. } ==> (attempt.0 <= 1 || factor.0
            == ONE_BITS ==> backoff.delay_nanos(attempt, sample, scaled, jittered) == base@),
        backoff matches Backoff::Exponential { max, .. } ==> (backoff.scaling(attempt) is Some
            && scaled is None ==> backoff.delay_nanos(attempt, sample, scaled, jittered) == max@),
{
}

/// Where scaling grows with the attempt, so does the delay before jitter, up to
/// the maximum and no further.
pub proof fn law_derived_delays_are_monotone(
    backoff: Backoff,
    earlier: RestartAttempt,
    later: RestartAttempt,
    scaled_earlier: Option<Duration>,
    scaled_later: Option<Duration>,
)
    requires
        backoff.fault() is None,
        earlier.0 <= later.0,
        scaled_later matches Some(span) ==> (scaled_earlier matches Some(before) && before@
            <= span@),
        backoff matches Backoff::Exponential { base, .. } ==> (scaled_later matches Some(span)
            ==> base@ <= span@),
    ensures
        backoff.derived(earlier, scaled_earlier)@ <= backoff.derived(later, scaled_later)@,
{
}

/// At the lower jitter edge the delay is exactly half, rounded up.
pub proof fn law_the_lower_jitter_edge_is_the_exact_half(
    backoff: Backoff,
    attempt: RestartAttempt,
    sample: JitterSample,
    scaled: Option<Duration>,
    jittered: Duration,
)
    requires
        backoff.jitter() is Equal,
        sample.is_zero(),
    ensures
        backoff.derived(attempt, scaled)@ > 0 ==> backoff.delay_nanos(
            attempt,
            sample,
            scaled,
            jittered,
        ) == half_up(backoff.derived(attempt, scaled)@),
{
}

/// Equal jitter keeps to the upper half of the delay before jitter, wherever
/// floating-point arithmetic did: a sample of zero gives exactly half, and any
/// other what was computed from it.
pub proof fn law_equal_jitter_keeps_to_the_upper_half(
    backoff: Backoff,
    attempt: RestartAttempt,
    sample: JitterSample,
    scaled: Option<Duration>,
    jittered: Duration,
)
    requires
        backoff.jitter() is Equal,
        !sample.is_zero() ==> half_up(backoff.derived(attempt, scaled)@) <= jittered@
            <= backoff.derived(attempt, scaled)@,
    ensures
        half_up(backoff.derived(attempt, scaled)@) <= backoff.delay_nanos(
            attempt,
            sample,
            scaled,
            jittered,
        ) <= backoff.derived(attempt, scaled)@,
{
}

/// Restart condition and delay policy for one child.
#[derive(Clone, Copy, Debug, PartialEq, Eq, Structural, Hash)]
pub struct RestartPolicy {
    /// When an exited child is restarted.
    pub condition: RestartCondition,
    /// How long the restart waits.
    pub backoff: Backoff,
}

impl RestartPolicy {
    /// Constructs a restart policy.
    #[must_use]
    pub fn new(condition: RestartCondition, backoff: Backoff) -> (policy: RestartPolicy)
        ensures
            policy == (RestartPolicy { condition, backoff }),
    {
        RestartPolicy { condition, backoff }
    }

    /// The configured condition.
    #[must_use]
    pub fn condition(self) -> (condition: RestartCondition)
        ensures
            condition == self.condition,
    {
        self.condition
    }

    /// The configured delay policy.
    #[must_use]
    pub fn backoff(self) -> (backoff: Backoff)
        ensures
            backoff == self.backoff,
    {
        self.backoff
    }

    /// Whether this policy can never restart.
    #[must_use]
    pub fn is_never(self) -> (never: bool)
        ensures
            never == (self.condition is Never),
    {
        matches!(self.condition, RestartCondition::Never)
    }

    /// Rejects a policy whose delay policy is invalid.
    pub fn validate(self) -> (verdict: Result<(), PolicyError>)
        ensures
            verdict == match self.backoff.fault() {
                Some(error) => Err::<(), PolicyError>(error),
                None => Ok::<(), PolicyError>(()),
            },
    {
        self.backoff.validate()
    }

    /// Whether a child that ended with `exit` is restarted.
    pub fn should_restart(self, exit: &Exit) -> (restart: bool)
        ensures
            restart == match self.condition {
                RestartCondition::Always => true,
                RestartCondition::OnFailure => exit.failure,
                RestartCondition::Never => false,
            },
    {
        match self.condition {
            RestartCondition::Always => true,
            RestartCondition::OnFailure => exit.is_failure(),
            RestartCondition::Never => false,
        }
    }
}

impl Default for RestartPolicy {
    fn default() -> (policy: RestartPolicy)
        ensures
            policy == default_restart(),
    {
        RestartPolicy::new(RestartCondition::OnFailure, Backoff::Immediate)
    }
}

/// The default restart policy: after a failure, without delay.
pub open spec fn default_restart() -> RestartPolicy {
    RestartPolicy { condition: RestartCondition::OnFailure, backoff: Backoff::Immediate }
}

/// Per-child shutdown behavior.
#[derive(Clone, Copy, Debug, PartialEq, Eq, Structural, Hash)]
pub enum Shutdown {
    /// Request cooperative shutdown for up to the supplied grace.
    Graceful {
        /// Cooperative grace.
        grace: Duration,
    },
    /// Escalate immediately after cancellation.
    Abort,
}

/// The default shutdown behavior.
pub open spec fn default_shutdown() -> Shutdown {
    Shutdown::Graceful { grace: Duration::of(5_000_000_000) }
}

impl Default for Shutdown {
    fn default() -> (shutdown: Shutdown)
        ensures
            shutdown == default_shutdown(),
    {
        broadcast use {lemma_duration_extensional, Duration::lemma_of};

        Shutdown::Graceful { grace: Duration::from_secs(DEFAULT_SHUTDOWN_GRACE_SECS) }
    }
}

/// A child's readiness mode.
#[derive(Clone, Copy, Debug, PartialEq, Eq, Structural, Hash)]
pub enum Readiness {
    /// Ready as soon as the incarnation starts.
    Immediate,
    /// Ready after handler initialization completes.
    AfterInit,
    /// Ready only after an explicit context signal.
    Manual,
}

/// Resolution state for a gated-readiness deadline.
#[derive(Clone, Copy, Debug, PartialEq, Eq, Structural, Hash)]
pub enum ReadinessDeadline {
    /// Resolve from the nearest scope default.
    Inherit,
    /// Apply a non-zero bound.
    Bounded(Duration),
    /// Wait without a deadline.
    Unbounded,
}

impl Default for ReadinessDeadline {
    fn default() -> (deadline: ReadinessDeadline)
        ensures
            deadline is Inherit,
    {
        ReadinessDeadline::Inherit
    }
}

impl ReadinessDeadline {
    /// What is wrong with a declared deadline.
    pub open spec fn declared_fault(self) -> Option<PolicyError> {
        match self {
            ReadinessDeadline::Bounded(duration) => if duration@ == 0 {
                Some(PolicyError::ZeroDuration)
            } else {
                None
            },
            _ => None,
        }
    }

    /// What is wrong with a deadline at execution.
    pub open spec fn resolved_fault(self) -> Option<PolicyError> {
        match self {
            ReadinessDeadline::Inherit => Some(PolicyError::UnresolvedReadinessDeadline),
            _ => self.declared_fault(),
        }
    }

    /// The deadline, or `inherited` where it is inherited.
    pub open spec fn or_inherited(self, inherited: ReadinessDeadline) -> ReadinessDeadline {
        match self {
            ReadinessDeadline::Inherit => inherited,
            _ => self,
        }
    }

    /// Constructs a validated bounded deadline.
    pub fn bounded(duration: Duration) -> (deadline: Result<ReadinessDeadline, PolicyError>)
        ensures
            deadline == if duration@ == 0 {
                Err::<ReadinessDeadline, PolicyError>(PolicyError::ZeroDuration)
            } else {
                Ok::<ReadinessDeadline, PolicyError>(ReadinessDeadline::Bounded(duration))
            },
    {
        if duration.is_zero() {
            Err(PolicyError::ZeroDuration)
        } else {
            Ok(ReadinessDeadline::Bounded(duration))
        }
    }

    /// Rejects an empty bound.
    pub fn validate_declared(self) -> (verdict: Result<(), PolicyError>)
        ensures
            verdict == match self.declared_fault() {
                Some(error) => Err::<(), PolicyError>(error),
                None => Ok::<(), PolicyError>(()),
            },
    {
        match self {
            ReadinessDeadline::Bounded(duration) => if duration.is_zero() {
                Err(PolicyError::ZeroDuration)
            } else {
                Ok(())
            },
            _ => Ok(()),
        }
    }

    /// Rejects an empty bound, and one that is still to be inherited.
    pub fn validate_resolved(self) -> (verdict: Result<(), PolicyError>)
        ensures
            verdict == match self.resolved_fault() {
                Some(error) => Err::<(), PolicyError>(error),
                None => Ok::<(), PolicyError>(()),
            },
    {
        match self {
            ReadinessDeadline::Inherit => Err(PolicyError::UnresolvedReadinessDeadline),
            value => value.validate_declared(),
        }
    }

    /// The deadline, or `inherited` where it is inherited.
    fn or_else(self, inherited: ReadinessDeadline) -> (deadline: ReadinessDeadline)
        ensures
            deadline == self.or_inherited(inherited),
    {
        match self {
            ReadinessDeadline::Inherit => inherited,
            value => value,
        }
    }
}

/// The scope-wide restart budget.
#[derive(Clone, Copy, Debug, PartialEq, Eq, Structural, Hash)]
pub struct Intensity {
    /// Maximum restart charges allowed inside the rolling window.
    pub max_restarts: u64,
    /// The rolling-window duration.
    pub within: Duration,
}

impl Intensity {
    /// Constructs a validated intensity budget.
    pub fn new(max_restarts: u64, within: Duration) -> (intensity: Result<Intensity, PolicyError>)
        ensures
            intensity == if within@ == 0 {
                Err::<Intensity, PolicyError>(PolicyError::ZeroDuration)
            } else {
                Ok::<Intensity, PolicyError>(Intensity { max_restarts, within })
            },
    {
        if within.is_zero() {
            Err(PolicyError::ZeroDuration)
        } else {
            Ok(Intensity { max_restarts, within })
        }
    }

    /// Rejects an empty window.
    pub fn validate(self) -> (verdict: Result<(), PolicyError>)
        ensures
            verdict == if self.within@ == 0 {
                Err::<(), PolicyError>(PolicyError::ZeroDuration)
            } else {
                Ok::<(), PolicyError>(())
            },
    {
        if self.within.is_zero() {
            Err(PolicyError::ZeroDuration)
        } else {
            Ok(())
        }
    }
}

impl Default for Intensity {
    fn default() -> (intensity: Intensity)
        ensures
            intensity.max_restarts == 5,
            intensity.within@ == 30 * 1_000_000_000,
    {
        Intensity { max_restarts: 5, within: Duration::from_secs(30) }
    }
}

/// How an actor's mailbox is declared.
#[derive(Clone, Copy, Debug, PartialEq, Eq, Hash)]
#[non_exhaustive]
pub enum Mailbox {
    /// Bounded FIFO; `None` defers capacity by matching mailbox kind.
    Queue(Option<Capacity>),
    /// A single latest-value slot.
    Latest,
}

/// The default mailbox.
pub open spec fn default_mailbox() -> Mailbox {
    Mailbox::Queue(Some(Capacity::of(DEFAULT_MAILBOX_CAPACITY)))
}

impl Mailbox {
    /// Constructs a FIFO mailbox with an explicit capacity.
    pub fn queue(capacity: usize) -> (mailbox: Result<Mailbox, PolicyError>)
        ensures
            mailbox == if capacity == 0 {
                Err::<Mailbox, PolicyError>(PolicyError::ZeroCapacity)
            } else {
                Ok::<Mailbox, PolicyError>(Mailbox::Queue(Some(Capacity::of(capacity))))
            },
    {
        broadcast use {lemma_capacity_extensional, Capacity::lemma_of};

        match Capacity::new(capacity) {
            Some(slots) => Ok(Mailbox::Queue(Some(slots))),
            None => Err(PolicyError::ZeroCapacity),
        }
    }

    /// Constructs a FIFO mailbox whose capacity is inherited by kind.
    #[must_use]
    pub fn queue_inherit() -> (mailbox: Mailbox)
        ensures
            mailbox == Mailbox::Queue(None),
    {
        Mailbox::Queue(None)
    }

    /// Constructs a conflating latest-value mailbox.
    #[must_use]
    pub fn latest() -> (mailbox: Mailbox)
        ensures
            mailbox == Mailbox::Latest,
    {
        Mailbox::Latest
    }
}

impl Default for Mailbox {
    fn default() -> (mailbox: Mailbox)
        ensures
            mailbox == default_mailbox(),
    {
        broadcast use {lemma_capacity_extensional, Capacity::lemma_of};

        Mailbox::Queue(Capacity::new(DEFAULT_MAILBOX_CAPACITY))
    }
}

/// Fate of the frozen accepted mailbox prefix during shutdown.
#[derive(Clone, Copy, Debug, PartialEq, Eq, Structural, Hash)]
pub enum MailboxShutdown {
    /// Deliver the frozen accepted prefix before stopping.
    Drain,
    /// Drop the frozen accepted prefix.
    Discard,
}

impl Default for MailboxShutdown {
    fn default() -> (shutdown: MailboxShutdown)
        ensures
            shutdown is Drain,
    {
        MailboxShutdown::Drain
    }
}

/// Whether a terminal child remains resident as a tombstone.
#[derive(Clone, Copy, Debug, PartialEq, Eq, Structural, Hash)]
pub enum Retention {
    /// Retain the terminal membership until explicit removal or scope exit.
    Retain,
    /// Prune the membership immediately after terminalization.
    Remove,
}

/// Ordered-scope fate-sharing strategy.
#[derive(Clone, Copy, Debug, PartialEq, Eq, Structural, Hash)]
#[non_exhaustive]
pub enum Strategy {
    /// Restart only the exiting child.
    OneForOne,
}

impl Default for Strategy {
    fn default() -> (strategy: Strategy)
        ensures
            strategy is OneForOne,
    {
        Strategy::OneForOne
    }
}

/// Scope defaults inherited by child declarations.
#[derive(Clone, Copy, Debug, PartialEq, Eq)]
pub struct ScopeDefaults {
    /// Default child restart policy.
    pub child_restart: Option<RestartPolicy>,
    /// Default child shutdown policy.
    pub child_shutdown: Option<Shutdown>,
    /// Default actor mailbox kind and capacity.
    pub mailbox: Option<Mailbox>,
    /// Default mailbox shutdown behavior.
    pub mailbox_shutdown: Option<MailboxShutdown>,
    /// Default readiness deadline.
    pub readiness_deadline: Option<ReadinessDeadline>,
}

impl Default for ScopeDefaults {
    fn default() -> (defaults: ScopeDefaults)
        ensures
            defaults.child_restart is None,
            defaults.child_shutdown is None,
            defaults.mailbox is None,
            defaults.mailbox_shutdown is None,
            defaults.readiness_deadline is None,
    {
        ScopeDefaults {
            child_restart: None,
            child_shutdown: None,
            mailbox: None,
            mailbox_shutdown: None,
            readiness_deadline: None,
        }
    }
}

/// How a subtree edge treats inherited scope defaults.
#[derive(Clone, Copy, Debug, PartialEq, Eq, Structural, Hash)]
pub enum DefaultsInheritance {
    /// Continue resolving unset fields through the parent.
    Inherit,
    /// Resolve unset fields directly from library defaults.
    Reset,
}

impl Default for DefaultsInheritance {
    fn default() -> (inheritance: DefaultsInheritance)
        ensures
            inheritance is Inherit,
    {
        DefaultsInheritance::Inherit
    }
}

/// A policy-construction error.
#[derive(Clone, Copy, Debug, PartialEq, Eq, Structural)]
#[non_exhaustive]
pub enum PolicyError {
    /// A required duration was zero.
    ZeroDuration,
    /// A mailbox capacity was zero.
    ZeroCapacity,
    /// An exponential factor was non-finite or below one.
    InvalidBackoffFactor,
    /// An exponential maximum preceded its base delay.
    BackoffMaximumBeforeBase,
    /// An inherited readiness deadline remained unresolved at execution.
    UnresolvedReadinessDeadline,
    /// A readiness mode is not meaningful for this child kind.
    UnsupportedReadiness,
}

impl PolicyError {
    /// The diagnostic.
    pub fn message(self) -> (text: &'static str)
        ensures
            text@ == match self {
                PolicyError::ZeroDuration => "duration must be non-zero"@,
                PolicyError::ZeroCapacity => "mailbox capacity must be non-zero"@,
                PolicyError::InvalidBackoffFactor => {
                    "backoff factor must be finite and at least 1.0"@
                },
                PolicyError::BackoffMaximumBeforeBase => {
                    "backoff maximum must not be shorter than its base"@
                },
                PolicyError::UnresolvedReadinessDeadline => {
                    "readiness deadline must be resolved before execution"@
                },
                PolicyError::UnsupportedReadiness => {
                    "readiness mode is not supported by this child kind"@
                },
            },
    {
        match self {
            PolicyError::ZeroDuration => "duration must be non-zero",
            PolicyError::ZeroCapacity => "mailbox capacity must be non-zero",
            PolicyError::InvalidBackoffFactor => "backoff factor must be finite and at least 1.0",
            PolicyError::BackoffMaximumBeforeBase => {
                "backoff maximum must not be shorter than its base"
            },
            PolicyError::UnresolvedReadinessDeadline => {
                "readiness deadline must be resolved before execution"
            },
            PolicyError::UnsupportedReadiness => {
                "readiness mode is not supported by this child kind"
            },
        }
    }
}

/// Policy field rejected at a lowering or admission boundary.
#[derive(Clone, Copy, Debug, PartialEq, Eq, Structural)]
#[non_exhaustive]
pub enum PolicyField {
    /// A scope restart-intensity window.
    Intensity,
    /// A default or child restart backoff.
    RestartBackoff,
    /// A default or child readiness deadline.
    ReadinessDeadline,
}

impl PolicyField {
    /// The field's name in diagnostics.
    pub fn label(self) -> (text: &'static str)
        ensures
            text@ == match self {
                PolicyField::Intensity => "restart intensity"@,
                PolicyField::RestartBackoff => "restart backoff"@,
                PolicyField::ReadinessDeadline => "readiness deadline"@,
            },
    {
        match self {
            PolicyField::Intensity => "restart intensity",
            PolicyField::RestartBackoff => "restart backoff",
            PolicyField::ReadinessDeadline => "readiness deadline",
        }
    }
}

/// Structured evidence for a policy value rejected during lowering.
#[derive(Debug, PartialEq, Eq)]
#[non_exhaustive]
pub struct InvalidPolicy {
    /// Child-id path relative to the scope being lowered; empty for scope policy.
    pub path: Vec<ChildId>,
    /// Policy field whose public representation bypassed validation.
    pub field: PolicyField,
    /// Exact validation failure.
    pub error: PolicyError,
}

/// The ids of a path.
pub open spec fn path_ids(path: Seq<ChildId>) -> Seq<Seq<char>> {
    path.map_values(|id: ChildId| id@)
}

impl Clone for InvalidPolicy {
    fn clone(&self) -> (copy: InvalidPolicy)
        ensures
            copy.path@ == self.path@,
            copy.field == self.field,
            copy.error == self.error,
    {
        InvalidPolicy { path: clone_path(&self.path), field: self.field, error: self.error }
    }
}

impl InvalidPolicy {
    /// Evidence against the scope's own policy.
    pub fn new(field: PolicyField, error: PolicyError) -> (invalid: InvalidPolicy)
        ensures
            invalid.path@ == Seq::<ChildId>::empty(),
            invalid.field == field,
            invalid.error == error,
    {
        InvalidPolicy { path: Vec::new(), field, error }
    }

    /// The same evidence, seen from the scope that holds child `id`.
    pub fn prepend(self, id: &ChildId) -> (invalid: InvalidPolicy)
        ensures
            path_ids(invalid.path@) == seq![id@] + path_ids(self.path@),
            invalid.field == self.field,
            invalid.error == self.error,
    {
        let mut path = self.path;
        let first = id.clone();
        path.insert(0, first);
        proof {
            assert(path@ =~= seq![first] + self.path@);
            assert(path_ids(path@) =~= seq![id@] + path_ids(self.path@));
        }
        InvalidPolicy { path, field: self.field, error: self.error }
    }
}

/// How long an aborted child is given to unwind: a tenth of its grace, between
/// one and ten milliseconds.
pub fn tidy_abort_beat(grace: Duration) -> (beat: Duration)
    ensures
        beat@ == if grace@ / 10 < 1_000_000 {
            1_000_000
        } else if grace@ / 10 > 10_000_000 {
            10_000_000
        } else {
            grace@ / 10
        },
{
    let tenth: u128 = grace.as_nanos() / 10;
    if tenth < 1_000_000 {
        Duration::from_millis(1)
    } else if tenth > 10_000_000 {
        Duration::from_millis(10)
    } else {
        Duration::from_nanos(tenth)
    }
}

/// What a child declares, each field unless it is inherited.
#[derive(Clone, Copy, Debug, PartialEq, Eq)]
pub struct CommonOptions {
    /// Restart policy.
    pub restart: Option<RestartPolicy>,
    /// Shutdown policy.
    pub shutdown: Option<Shutdown>,
    /// Mailbox kind and capacity.
    pub mailbox: Option<Mailbox>,
    /// Mailbox shutdown behavior.
    pub mailbox_shutdown: Option<MailboxShutdown>,
    /// Readiness mode.
    pub readiness: Option<Readiness>,
    /// Readiness deadline.
    pub readiness_deadline: ReadinessDeadline,
    /// Retention of the terminal membership.
    pub retention: Option<Retention>,
}

impl Default for CommonOptions {
    fn default() -> (options: CommonOptions)
        ensures
            options.restart is None,
            options.shutdown is None,
            options.mailbox is None,
            options.mailbox_shutdown is None,
            options.readiness is None,
            options.readiness_deadline is Inherit,
            options.retention is None,
    {
        CommonOptions {
            restart: None,
            shutdown: None,
            mailbox: None,
            mailbox_shutdown: None,
            readiness: None,
            readiness_deadline: ReadinessDeadline::Inherit,
            retention: None,
        }
    }
}

/// A scope's defaults with nothing left to inherit.
#[derive(Clone, Copy, Debug, PartialEq, Eq)]
pub struct ResolvedDefaults {
    /// Default child restart policy.
    pub child_restart: RestartPolicy,
    /// Default child shutdown policy.
    pub child_shutdown: Shutdown,
    /// Default actor mailbox kind and capacity.
    pub mailbox: Mailbox,
    /// Default mailbox shutdown behavior.
    pub mailbox_shutdown: MailboxShutdown,
    /// Default readiness deadline.
    pub readiness_deadline: ReadinessDeadline,
}

/// The library's defaults.
pub open spec fn library_defaults() -> ResolvedDefaults {
    ResolvedDefaults {
        child_restart: default_restart(),
        child_shutdown: default_shutdown(),
        mailbox: default_mailbox(),
        mailbox_shutdown: MailboxShutdown::Drain,
        readiness_deadline: ReadinessDeadline::Bounded(Duration::of(30_000_000_000)),
    }
}

impl Default for ResolvedDefaults {
    fn default() -> (defaults: ResolvedDefaults)
        ensures
            defaults == library_defaults(),
    {
        broadcast use {lemma_duration_extensional, Duration::lemma_of};

        ResolvedDefaults {
            child_restart: RestartPolicy::default(),
            child_shutdown: Shutdown::default(),
            mailbox: Mailbox::default(),
            mailbox_shutdown: MailboxShutdown::default(),
            readiness_deadline: ReadinessDeadline::Bounded(
                Duration::from_secs(DEFAULT_READINESS_DEADLINE_SECS),
            ),
        }
    }
}

/// The value, or `inherited` where there is none.
pub open spec fn or_default<T>(value: Option<T>, inherited: T) -> T {
    match value {
        Some(value) => value,
        None => inherited,
    }
}

/// The mailbox that a declaration resolves to. A queue of deferred capacity
/// takes it from an inherited queue, else from the library.
pub open spec fn resolved_mailbox(value: Option<Mailbox>, inherited: Mailbox) -> Mailbox {
    match value {
        None => inherited,
        Some(Mailbox::Queue(None)) => match inherited {
            Mailbox::Queue(Some(capacity)) => Mailbox::Queue(Some(capacity)),
            _ => default_mailbox(),
        },
        Some(value) => value,
    }
}

/// A rejected field and why.
pub type Fault = (PolicyField, PolicyError);

/// The first fault of a restart policy and a deadline.
pub open spec fn first_fault(restart: Option<PolicyError>, deadline: Option<PolicyError>) -> Option<
    Fault,
> {
    match restart {
        Some(error) => Some((PolicyField::RestartBackoff, error)),
        None => match deadline {
            Some(error) => Some((PolicyField::ReadinessDeadline, error)),
            None => None,
        },
    }
}

/// The fault of a restart policy, where there is one.
pub open spec fn restart_fault(restart: Option<RestartPolicy>) -> Option<PolicyError> {
    match restart {
        Some(policy) => policy.backoff.fault(),
        None => None,
    }
}

/// Whether `verdict` reports exactly `fault`, at the scope itself.
pub open spec fn reports<T>(verdict: Result<T, InvalidPolicy>, fault: Option<Fault>) -> bool {
    &&& verdict is Err <==> fault is Some
    &&& verdict matches Err(invalid) ==> {
        &&& invalid.path@.len() == 0
        &&& fault == Some((invalid.field, invalid.error))
    }
}

impl ResolvedDefaults {
    /// What is wrong with the defaults.
    pub open spec fn fault(self) -> Option<Fault> {
        first_fault(self.child_restart.backoff.fault(), self.readiness_deadline.resolved_fault())
    }

    /// What is wrong with laying `values` over the defaults.
    pub open spec fn overlay_fault(self, values: ScopeDefaults) -> Option<Fault> {
        if self.fault() is Some {
            self.fault()
        } else {
            first_fault(
                restart_fault(values.child_restart),
                match values.readiness_deadline {
                    Some(deadline) => deadline.declared_fault(),
                    None => None,
                },
            )
        }
    }

    /// The defaults with `values` laid over them.
    pub open spec fn overlaid(self, values: ScopeDefaults) -> ResolvedDefaults {
        ResolvedDefaults {
            child_restart: or_default(values.child_restart, self.child_restart),
            child_shutdown: or_default(values.child_shutdown, self.child_shutdown),
            mailbox: resolved_mailbox(values.mailbox, self.mailbox),
            mailbox_shutdown: or_default(values.mailbox_shutdown, self.mailbox_shutdown),
            readiness_deadline: or_default(
                values.readiness_deadline,
                self.readiness_deadline,
            ).or_inherited(self.readiness_deadline),
        }
    }

    /// Lays `values` over the defaults: what they set replaces, what they leave
    /// out is inherited. Both are validated.
    pub fn overlay(&self, values: &ScopeDefaults) -> (resolved: Result<
        ResolvedDefaults,
        InvalidPolicy,
    >)
        ensures
            reports(resolved, self.overlay_fault(*values)),
            resolved matches Ok(defaults) ==> defaults == self.overlaid(*values)
                && defaults.fault() is None,
    {
        if let Err(invalid) = self.validate() {
            return Err(invalid);
        }
        if let Some(restart) = values.child_restart {
            if let Err(error) = restart.validate() {
                return Err(InvalidPolicy::new(PolicyField::RestartBackoff, error));
            }
        }
        if let Some(deadline) = values.readiness_deadline {
            if let Err(error) = deadline.validate_declared() {
                return Err(InvalidPolicy::new(PolicyField::ReadinessDeadline, error));
            }
        }
        let resolved = ResolvedDefaults {
            child_restart: values.child_restart.unwrap_or(self.child_restart),
            child_shutdown: values.child_shutdown.unwrap_or(self.child_shutdown),
            mailbox: resolve_default_mailbox(values.mailbox, self.mailbox),
            mailbox_shutdown: values.mailbox_shutdown.unwrap_or(self.mailbox_shutdown),
            readiness_deadline: values.readiness_deadline.unwrap_or(
                self.readiness_deadline,
            ).or_else(self.readiness_deadline),
        };
        if let Err(invalid) = resolved.validate() {
            return Err(invalid);
        }
        Ok(resolved)
    }

    /// Rejects defaults that hold an invalid policy, or leave the readiness
    /// deadline to be inherited.
    pub fn validate(&self) -> (verdict: Result<(), InvalidPolicy>)
        ensures
            reports(verdict, self.fault()),
    {
        if let Err(error) = self.child_restart.validate() {
            return Err(InvalidPolicy::new(PolicyField::RestartBackoff, error));
        }
        if let Err(error) = self.readiness_deadline.validate_resolved() {
            return Err(InvalidPolicy::new(PolicyField::ReadinessDeadline, error));
        }
        Ok(())
    }
}

/// The mailbox that a declaration resolves to.
pub fn resolve_default_mailbox(value: Option<Mailbox>, inherited: Mailbox) -> (mailbox: Mailbox)
    ensures
        mailbox == resolved_mailbox(value, inherited),
{
    match value {
        None => inherited,
        Some(Mailbox::Queue(None)) => match inherited {
            Mailbox::Queue(Some(capacity)) => Mailbox::Queue(Some(capacity)),
            _ => Mailbox::default(),
        },
        Some(value) => value,
    }
}

/// A child's options with nothing left to inherit.
#[derive(Clone, Copy, Debug, PartialEq, Eq)]
pub struct ResolvedCommonOptions {
    /// Restart policy.
    pub restart: RestartPolicy,
    /// Shutdown policy.
    pub shutdown: Shutdown,
    /// Mailbox kind and capacity.
    pub mailbox: Mailbox,
    /// Mailbox shutdown behavior.
    pub mailbox_shutdown: MailboxShutdown,
    /// Readiness mode.
    pub readiness: Readiness,
    /// The readiness mode the child declared itself.
    pub readiness_override: Option<Readiness>,
    /// Readiness deadline.
    pub readiness_deadline: ReadinessDeadline,
    /// Retention of the terminal membership.
    pub retention: Retention,
}

/// What is wrong with a child's options under `defaults`.
pub open spec fn common_fault(options: CommonOptions, defaults: ResolvedDefaults) -> Option<Fault> {
    if defaults.fault() is Some {
        defaults.fault()
    } else {
        first_fault(
            restart_fault(options.restart),
            options.readiness_deadline.declared_fault(),
        )
    }
}

/// What a child's options resolve to under `defaults`. A one-shot child never
/// restarts and, unless it says otherwise, leaves nothing behind.
pub open spec fn resolved_common(
    options: CommonOptions,
    defaults: ResolvedDefaults,
    mode: ChildMode,
    default_readiness: Readiness,
) -> ResolvedCommonOptions {
    ResolvedCommonOptions {
        restart: if mode is OneShot {
            RestartPolicy { condition: RestartCondition::Never, backoff: Backoff::Immediate }
        } else {
            or_default(options.restart, defaults.child_restart)
        },
        shutdown: or_default(options.shutdown, defaults.child_shutdown),
        mailbox: resolved_mailbox(options.mailbox, defaults.mailbox),
        mailbox_shutdown: or_default(options.mailbox_shutdown, defaults.mailbox_shutdown),
        readiness: or_default(options.readiness, default_readiness),
        readiness_override: options.readiness,
        readiness_deadline: options.readiness_deadline.or_inherited(defaults.readiness_deadline),
        retention: or_default(
            options.retention,
            if mode is OneShot {
                Retention::Remove
            } else {
                Retention::Retain
            },
        ),
    }
}

/// Resolves a child's options under its scope's defaults, validating both.
pub fn resolve_common(
    options: &CommonOptions,
    defaults: &ResolvedDefaults,
    mode: ChildMode,
    default_readiness: Readiness,
) -> (resolved: Result<ResolvedCommonOptions, InvalidPolicy>)
    ensures
        reports(resolved, common_fault(*options, *defaults)),
        resolved matches Ok(common) ==> common == resolved_common(
            *options,
            *defaults,
            mode,
            default_readiness,
        ),
{
    if let Err(invalid) = defaults.validate() {
        return Err(invalid);
    }
    if let Some(restart) = options.restart {
        if let Err(error) = restart.validate() {
            return Err(InvalidPolicy::new(PolicyField::RestartBackoff, error));
        }
    }
    if let Err(error) = options.readiness_deadline.validate_declared() {
        return Err(InvalidPolicy::new(PolicyField::ReadinessDeadline, error));
    }
    let one_shot = matches!(mode, ChildMode::OneShot);
    let resolved = ResolvedCommonOptions {
        restart: if one_shot {
            RestartPolicy::new(RestartCondition::Never, Backoff::Immediate)
        } else {
            options.restart.unwrap_or(defaults.child_restart)
        },
        shutdown: options.shutdown.unwrap_or(defaults.child_shutdown),
        mailbox: resolve_default_mailbox(options.mailbox, defaults.mailbox),
        mailbox_shutdown: options.mailbox_shutdown.unwrap_or(defaults.mailbox_shutdown),
        readiness: options.readiness.unwrap_or(default_readiness),
        readiness_override: options.readiness,
        readiness_deadline: options.readiness_deadline.or_else(defaults.readiness_deadline),
        retention: options.retention.unwrap_or(
            if one_shot {
                Retention::Remove
            } else {
                Retention::Retain
            },
        ),
    };
    if let Err(error) = resolved.restart.validate() {
        return Err(InvalidPolicy::new(PolicyField::RestartBackoff, error));
    }
    if let Err(error) = resolved.readiness_deadline.validate_resolved() {
        return Err(InvalidPolicy::new(PolicyField::ReadinessDeadline, error));
    }
    Ok(resolved)
}

/// Laying over nothing changes nothing, and what the outer layer sets wins over
/// the inner one field by field.
pub proof fn law_overlays_inherit_field_by_field(
    defaults: ResolvedDefaults,
    values: ScopeDefaults,
    empty: ScopeDefaults,
)
    requires
        empty.child_restart is None,
        empty.child_shutdown is None,
        empty.mailbox is None,
        empty.mailbox_shutdown is None,
        empty.readiness_deadline is None,
    ensures
        defaults.overlaid(empty) == defaults,
        defaults.overlaid(values).overlaid(empty) == defaults.overlaid(values),
        values.child_restart matches Some(restart) ==> defaults.overlaid(values).child_restart
            == restart,
        values.child_restart is None ==> defaults.overlaid(values).child_restart
            == defaults.child_restart,
        values.child_shutdown matches Some(shutdown) ==> defaults.overlaid(values).child_shutdown
            == shutdown,
        values.mailbox_shutdown matches Some(fate) ==> defaults.overlaid(values).mailbox_shutdown
            == fate,
        values.mailbox == Some(Mailbox::Latest) ==> defaults.overlaid(values).mailbox
            == Mailbox::Latest,
        values.mailbox is None ==> defaults.overlaid(values).mailbox == defaults.mailbox,
{
}

/// Valid defaults stay valid under every valid overlay, and resolve every
/// deadline.
pub proof fn law_overlays_keep_defaults_valid(defaults: ResolvedDefaults, values: ScopeDefaults)
    requires
        defaults.overlay_fault(values) is None,
    ensures
        defaults.overlaid(values).fault() is None,
        !(defaults.overlaid(values).readiness_deadline is Inherit),
{
}

/// The library's defaults are valid.
pub proof fn law_library_defaults_are_valid()
    ensures
        library_defaults().fault() is None,
{
    broadcast use Duration::lemma_of;

}

/// A one-shot child never restarts, whatever it or its scope declares.
pub proof fn law_a_one_shot_child_never_restarts(
    options: CommonOptions,
    defaults: ResolvedDefaults,
    default_readiness: Readiness,
)
    ensures
        resolved_common(options, defaults, ChildMode::OneShot, default_readiness).restart.condition
            is Never,
{
}

} // verus!
