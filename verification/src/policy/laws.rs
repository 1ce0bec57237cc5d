//! What declared, inherited and derived policy comes to, field by field.

use crate::exit::Exit;
use crate::policy::{
    common_fault, default_mailbox, default_restart, default_shutdown, library_defaults, reports,
    resolve_common, resolved_common, resolved_mailbox, saturating_bump, tidy_abort_beat, Backoff,
    BackoffFactor, Capacity, ChildMode, CommonOptions, InvalidPolicy, Jitter, JitterSample, Mailbox,
    MailboxShutdown, PolicyError, PolicyField, Readiness, ReadinessDeadline, ResolvedCommonOptions,
    ResolvedDefaults, RestartAttempt, RestartPolicy, Retention, ScopeDefaults, Shutdown,
    DEFAULT_MAILBOX_CAPACITY, INFINITY_BITS, LAST_SAMPLE_BITS, ONE_BITS, SIGN_BITS,
};
use crate::time::Duration;
use vstd::prelude::*;

verus! {

/// What a child leaves out it inherits from its scope, whatever the scope's
/// defaults are; what it declares wins.
pub proof fn law_a_child_inherits_what_it_leaves_out(
    options: CommonOptions,
    defaults: ResolvedDefaults,
    mode: ChildMode,
    default_readiness: Readiness,
)
    ensures
        ({
            let resolved = resolved_common(options, defaults, mode, default_readiness);
            &&& mode is Restartable ==> {
                &&& options.restart is None ==> resolved.restart == defaults.child_restart
                &&& options.restart matches Some(restart) ==> resolved.restart == restart
            }
            &&& options.shutdown is None ==> resolved.shutdown == defaults.child_shutdown
            &&& options.shutdown matches Some(shutdown) ==> resolved.shutdown == shutdown
            &&& options.mailbox is None ==> resolved.mailbox == defaults.mailbox
            &&& options.mailbox == Some(Mailbox::Latest) ==> resolved.mailbox == Mailbox::Latest
            &&& options.mailbox_shutdown is None ==> resolved.mailbox_shutdown
                == defaults.mailbox_shutdown
            &&& options.mailbox_shutdown matches Some(fate) ==> resolved.mailbox_shutdown == fate
            &&& options.readiness is None ==> resolved.readiness == default_readiness
            &&& options.readiness matches Some(readiness) ==> resolved.readiness == readiness
            &&& resolved.readiness_override == options.readiness
            &&& options.readiness_deadline is Inherit ==> resolved.readiness_deadline
                == defaults.readiness_deadline
            &&& !(options.readiness_deadline is Inherit) ==> resolved.readiness_deadline
                == options.readiness_deadline
            &&& options.retention matches Some(retention) ==> resolved.retention == retention
            &&& options.retention is None && mode is Restartable ==> resolved.retention
                == Retention::Retain
        }),
{
}

/// A one-shot child never restarts, has no delay, and is pruned when it ends
/// unless it asks to be retained; everything else it inherits like any child.
pub proof fn law_a_one_shot_child_only_differs_in_restart_and_retention(
    options: CommonOptions,
    defaults: ResolvedDefaults,
    default_readiness: Readiness,
)
    ensures
        ({
            let once = resolved_common(options, defaults, ChildMode::OneShot, default_readiness);
            let many = resolved_common(
                options,
                defaults,
                ChildMode::Restartable,
                default_readiness,
            );
            &&& once.restart.condition is Never
            &&& once.restart.backoff is Immediate
            &&& options.retention is None ==> once.retention == Retention::Remove
            &&& options.retention matches Some(retention) ==> once.retention == retention
            &&& once.shutdown == many.shutdown
            &&& once.mailbox == many.mailbox
            &&& once.mailbox_shutdown == many.mailbox_shutdown
            &&& once.readiness == many.readiness
            &&& once.readiness_override == many.readiness_override
            &&& once.readiness_deadline == many.readiness_deadline
        }),
{
}

/// A queue declared with a capacity keeps it, a queue that leaves its capacity
/// open takes it from an inherited queue and else the library's, a slot stays a
/// slot, and no declaration at all inherits the whole mailbox.
pub proof fn law_a_queue_inherits_only_its_capacity(
    capacity: Capacity,
    scope_capacity: Capacity,
    inherited: Mailbox,
)
    ensures
        resolved_mailbox(Some(Mailbox::Queue(Some(capacity))), inherited) == Mailbox::Queue(
            Some(capacity),
        ),
        resolved_mailbox(
            Some(Mailbox::Queue(None)),
            Mailbox::Queue(Some(scope_capacity)),
        ) == Mailbox::Queue(Some(scope_capacity)),
        resolved_mailbox(Some(Mailbox::Queue(None)), Mailbox::Latest) matches Mailbox::Queue(
            Some(settled),
        ) && settled@ == 64,
        resolved_mailbox(Some(Mailbox::Queue(None)), Mailbox::Queue(None)) matches Mailbox::Queue(
            Some(settled),
        ) && settled@ == 64,
        resolved_mailbox(Some(Mailbox::Latest), inherited) == Mailbox::Latest,
        resolved_mailbox(None, inherited) == inherited,
{
    broadcast use Capacity::lemma_of;

}

/// A child's mailbox follows those rules under its scope's default.
pub proof fn law_a_child_mailbox_follows_its_scope(
    options: CommonOptions,
    defaults: ResolvedDefaults,
    values: ScopeDefaults,
    mode: ChildMode,
    default_readiness: Readiness,
)
    ensures
        resolved_common(options, defaults, mode, default_readiness).mailbox == resolved_mailbox(
            options.mailbox,
            defaults.mailbox,
        ),
        defaults.overlaid(values).mailbox == resolved_mailbox(values.mailbox, defaults.mailbox),
{
}

/// A scope's defaults lay over those it inherits field by field: what the scope
/// sets wins, and what it leaves out stays.
pub proof fn law_a_scope_inherits_what_it_leaves_out(
    defaults: ResolvedDefaults,
    values: ScopeDefaults,
)
    ensures
        ({
            let laid = defaults.overlaid(values);
            &&& values.child_restart is None ==> laid.child_restart == defaults.child_restart
            &&& values.child_restart matches Some(restart) ==> laid.child_restart == restart
            &&& values.child_shutdown is None ==> laid.child_shutdown == defaults.child_shutdown
            &&& values.child_shutdown matches Some(shutdown) ==> laid.child_shutdown == shutdown
            &&& values.mailbox_shutdown is None ==> laid.mailbox_shutdown
                == defaults.mailbox_shutdown
            &&& values.mailbox_shutdown matches Some(fate) ==> laid.mailbox_shutdown == fate
            &&& values.readiness_deadline is None || values.readiness_deadline == Some(
                ReadinessDeadline::Inherit,
            ) ==> laid.readiness_deadline == defaults.readiness_deadline
            &&& values.readiness_deadline matches Some(deadline) ==> (!(deadline is Inherit)
                ==> laid.readiness_deadline == deadline)
        }),
{
}

/// Two scopes in a row: a child under the inner one gets what it declares, else
/// what the inner scope sets, else what the outer one does.
pub proof fn law_the_nearest_declaration_wins(
    options: CommonOptions,
    outer: ResolvedDefaults,
    inner: ScopeDefaults,
    default_readiness: Readiness,
)
    ensures
        ({
            let resolved = resolved_common(
                options,
                outer.overlaid(inner),
                ChildMode::Restartable,
                default_readiness,
            );
            &&& resolved.restart == match (options.restart, inner.child_restart) {
                (Some(own), _) => own,
                (None, Some(scope)) => scope,
                (None, None) => outer.child_restart,
            }
            &&& resolved.shutdown == match (options.shutdown, inner.child_shutdown) {
                (Some(own), _) => own,
                (None, Some(scope)) => scope,
                (None, None) => outer.child_shutdown,
            }
            &&& resolved.mailbox_shutdown == match (
                options.mailbox_shutdown,
                inner.mailbox_shutdown,
            ) {
                (Some(own), _) => own,
                (None, Some(scope)) => scope,
                (None, None) => outer.mailbox_shutdown,
            }
        }),
{
}

/// What the library itself defaults to: restart after a failure without delay,
/// five seconds of grace, a queue of sixty-four, draining, and thirty seconds
/// to become ready.
pub proof fn law_what_the_library_defaults_to()
    ensures
        library_defaults().child_restart.condition is OnFailure,
        library_defaults().child_restart.backoff is Immediate,
        library_defaults().child_restart == default_restart(),
        library_defaults().child_shutdown == default_shutdown(),
        library_defaults().child_shutdown matches Shutdown::Graceful { grace } && grace@
            == 5 * 1_000_000_000,
        library_defaults().mailbox == default_mailbox(),
        library_defaults().mailbox matches Mailbox::Queue(Some(capacity)) && capacity@
            == DEFAULT_MAILBOX_CAPACITY,
        library_defaults().mailbox_shutdown == MailboxShutdown::Drain,
        library_defaults().readiness_deadline matches ReadinessDeadline::Bounded(bound) && bound@
            == 30 * 1_000_000_000,
{
    broadcast use {Capacity::lemma_of, Duration::lemma_of};

}

/// Whether a backoff is one that may be used: no empty span, a finite factor of
/// at least one, and a maximum no shorter than the base.
pub open spec fn usable(backoff: Backoff) -> bool {
    match backoff {
        Backoff::Immediate => true,
        Backoff::Fixed { delay, .. } => delay@ > 0,
        Backoff::Exponential { base, factor, max, .. } => 0 < base@ <= max@ && ONE_BITS <= factor.0
            < INFINITY_BITS,
    }
}

/// A backoff is rejected exactly where it is not usable, an empty span before a
/// bad factor before a maximum below the base.
pub proof fn law_only_usable_backoffs_are_accepted(backoff: Backoff)
    ensures
        backoff.fault() is None <==> usable(backoff),
        backoff matches Backoff::Fixed { delay, .. } ==> (delay@ == 0 ==> backoff.fault() == Some(
            PolicyError::ZeroDuration,
        )),
        backoff matches Backoff::Exponential { base, factor, max, .. } ==> {
            &&& base@ == 0 || max@ == 0 ==> backoff.fault() == Some(PolicyError::ZeroDuration)
            &&& base@ > 0 && max@ > 0 && (factor.0 < ONE_BITS || factor.0 >= INFINITY_BITS)
                ==> backoff.fault() == Some(PolicyError::InvalidBackoffFactor)
            &&& base@ > 0 && 0 < max@ < base@ && ONE_BITS <= factor.0 < INFINITY_BITS
                ==> backoff.fault() == Some(PolicyError::BackoffMaximumBeforeBase)
        },
        forall|factor: BackoffFactor| #[trigger] factor.valid() <==> ONE_BITS <= factor.0
            < INFINITY_BITS,
{
}

/// A child's options are accepted exactly where its scope's defaults and its
/// own restart policy and deadline are usable; a restart policy is reported
/// before a deadline, and the scope's before the child's.
pub proof fn law_only_usable_options_are_accepted(
    options: CommonOptions,
    defaults: ResolvedDefaults,
)
    ensures
        ({
            let scope_restart = usable(defaults.child_restart.backoff);
            let scope_deadline = match defaults.readiness_deadline {
                ReadinessDeadline::Inherit => false,
                ReadinessDeadline::Bounded(bound) => bound@ > 0,
                ReadinessDeadline::Unbounded => true,
            };
            let own_restart = options.restart matches Some(policy) ==> usable(policy.backoff);
            let own_deadline = options.readiness_deadline matches ReadinessDeadline::Bounded(bound)
                ==> bound@ > 0;
            &&& defaults.fault() is None <==> scope_restart && scope_deadline
            &&& common_fault(options, defaults) is None <==> scope_restart && scope_deadline
                && own_restart && own_deadline
            &&& !scope_restart ==> (common_fault(options, defaults) matches Some(fault) && fault.0
                == PolicyField::RestartBackoff)
            &&& scope_restart && !scope_deadline ==> (common_fault(options, defaults) matches Some(
                fault,
            ) && fault.0 == PolicyField::ReadinessDeadline)
            &&& scope_restart && defaults.readiness_deadline is Inherit ==> common_fault(
                options,
                defaults,
            ) == Some((PolicyField::ReadinessDeadline, PolicyError::UnresolvedReadinessDeadline))
            &&& scope_restart && scope_deadline && !own_restart ==> common_fault(options, defaults)
                == Some(
                (PolicyField::RestartBackoff, options.restart->Some_0.backoff.fault()->Some_0),
            )
            &&& scope_restart && scope_deadline && own_restart && !own_deadline ==> common_fault(
                options,
                defaults,
            ) == Some((PolicyField::ReadinessDeadline, PolicyError::ZeroDuration))
        }),
{
}

/// A scope's overlay is accepted exactly where the inherited defaults and what
/// the scope sets are usable.
pub proof fn law_only_usable_overlays_are_accepted(
    defaults: ResolvedDefaults,
    values: ScopeDefaults,
)
    ensures
        ({
            let own_restart = values.child_restart matches Some(policy) ==> usable(policy.backoff);
            let own_deadline = values.readiness_deadline matches Some(deadline) ==> !(deadline
                is Bounded && deadline->Bounded_0@ == 0);
            &&& defaults.overlay_fault(values) is None <==> defaults.fault() is None && own_restart
                && own_deadline
            &&& defaults.fault() is Some ==> defaults.overlay_fault(values) == defaults.fault()
            &&& defaults.fault() is None && !own_restart ==> defaults.overlay_fault(values) == Some(
                (PolicyField::RestartBackoff, values.child_restart->Some_0.backoff.fault()->Some_0),
            )
            &&& defaults.fault() is None && own_restart && !own_deadline
                ==> defaults.overlay_fault(values) == Some(
                (PolicyField::ReadinessDeadline, PolicyError::ZeroDuration),
            )
        }),
{
}

/// A verdict names the fault it found, at the scope itself, and succeeds only
/// where there is none.
pub proof fn law_a_verdict_names_its_fault<T>(
    verdict: Result<T, InvalidPolicy>,
    fault: Option<(PolicyField, PolicyError)>,
)
    requires
        reports(verdict, fault),
    ensures
        fault is None ==> verdict is Ok,
        fault matches Some((field, error)) ==> {
            &&& verdict matches Err(invalid)
            &&& invalid.field == field
            &&& invalid.error == error
            &&& invalid.path@.len() == 0
        },
{
}

/// A scaled delay is used as it is up to the maximum: for every attempt that
/// needs scaling the delay before jitter is exactly what scaling gave, and
/// without jitter so is the delay. Past the maximum, or where scaling reached
/// it, the delay is the maximum.
pub proof fn law_scaled_delays_are_exact(
    base: Duration,
    factor: BackoffFactor,
    max: Duration,
    jitter: Jitter,
    attempt: RestartAttempt,
    scaled: Option<Duration>,
    sample: JitterSample,
    jittered: Duration,
)
    requires
        attempt.0 > 1,
        factor.0 != ONE_BITS,
    ensures
        ({
            let backoff = Backoff::Exponential { base, factor, max, jitter };
            let delay = backoff.delay_nanos(attempt, sample, scaled, jittered);
            &&& scaled matches Some(span) ==> {
                &&& span@ <= max@ ==> backoff.derived(attempt, scaled) == span
                &&& span@ > max@ ==> backoff.derived(attempt, scaled) == max
                &&& jitter is Off && span@ <= max@ ==> delay == span@
                &&& jitter is Off && span@ > max@ ==> delay == max@
            }
            &&& scaled is None ==> {
                &&& backoff.derived(attempt, scaled) == max
                &&& jitter is Off ==> delay == max@
            }
        }),
{
}

/// A delay that needs no scaling does not look at what scaling gave: nothing
/// for an immediate restart, the delay of a fixed one, the base of a first
/// attempt and of any attempt under a factor of one.
pub proof fn law_unscaled_delays_ignore_scaling(
    backoff: Backoff,
    attempt: RestartAttempt,
    scaled: Option<Duration>,
)
    requires
        usable(backoff),
    ensures
        backoff is Immediate ==> backoff.derived(attempt, scaled)@ == 0,
        backoff matches Backoff::Fixed { delay, .. } ==> backoff.derived(attempt, scaled) == delay,
        backoff matches Backoff::Exponential { base, factor, .. } ==> (attempt.0 <= 1 || factor.0
            == ONE_BITS ==> backoff.derived(attempt, scaled) == base),
{
    broadcast use Duration::lemma_of;

}

/// What is to be scaled: the base, by the factor to the power of the restarts
/// before this attempt, up to the maximum; nothing for a first attempt, under a
/// factor of one, or where the delay does not grow.
pub proof fn law_growth_counts_the_attempts_before(backoff: Backoff, attempt: RestartAttempt)
    ensures
        backoff.scaling(attempt) is Some <==> backoff is Exponential && attempt.0 >= 2
            && backoff->Exponential_factor.0 != ONE_BITS,
        backoff.scaling(attempt) matches Some(growth) ==> {
            &&& growth.base == backoff->Exponential_base
            &&& growth.factor == backoff->Exponential_factor
            &&& growth.max == backoff->Exponential_max
            &&& attempt.0 <= 0x8000_0000 ==> growth.exponent == attempt.0 - 1
            &&& attempt.0 > 0x8000_0000 ==> growth.exponent == 0x7FFF_FFFF
        },
{
}

/// Equal jitter at zero is half the delay, the odd nanosecond rounded up; at any
/// other sample it is what was computed from the sample, up to the maximum.
pub proof fn law_equal_jitter_uses_its_sample(
    backoff: Backoff,
    attempt: RestartAttempt,
    sample: JitterSample,
    scaled: Option<Duration>,
    jittered: Duration,
)
    requires
        usable(backoff),
        match backoff {
            Backoff::Immediate => false,
            Backoff::Fixed { jitter, .. } => jitter is Equal,
            Backoff::Exponential { jitter, .. } => jitter is Equal,
        },
    ensures
        ({
            let delay = backoff.delay_nanos(attempt, sample, scaled, jittered);
            let derived = backoff.derived(attempt, scaled)@;
            let maximum = match backoff {
                Backoff::Immediate => 0,
                Backoff::Fixed { delay, .. } => delay@,
                Backoff::Exponential { max, .. } => max@,
            };
            let zero = sample.0 == 0 || sample.0 == SIGN_BITS;
            &&& zero ==> 2 * delay == derived + derived % 2
            &&& !zero && jittered@ <= maximum ==> delay == jittered@
            &&& !zero && jittered@ > maximum ==> delay == maximum
        }),
{
}

/// Without jitter the sample and what was computed from it do not matter.
pub proof fn law_without_jitter_the_sample_does_not_matter(
    backoff: Backoff,
    attempt: RestartAttempt,
    sample: JitterSample,
    scaled: Option<Duration>,
    jittered: Duration,
)
    requires
        usable(backoff),
        match backoff {
            Backoff::Immediate => true,
            Backoff::Fixed { jitter, .. } => jitter is Off,
            Backoff::Exponential { jitter, .. } => jitter is Off,
        },
    ensures
        backoff.delay_nanos(attempt, sample, scaled, jittered) == backoff.derived(
            attempt,
            scaled,
        )@,
{
    broadcast use Duration::lemma_of;

}

/// A sample inside the interval is kept as it is, a signed zero too; a number
/// at or past one becomes the last sample; what is negative, infinite or no
/// number becomes zero.
pub proof fn law_a_sample_is_clamped_into_the_interval(bits: u64)
    ensures
        bits <= LAST_SAMPLE_BITS ==> JitterSample::clamped(bits) == bits,
        LAST_SAMPLE_BITS < bits < INFINITY_BITS ==> JitterSample::clamped(bits)
            == LAST_SAMPLE_BITS,
        INFINITY_BITS <= bits < SIGN_BITS ==> JitterSample::clamped(bits) == 0,
        bits > SIGN_BITS ==> JitterSample::clamped(bits) == 0,
        JitterSample(bits).is_zero() <==> bits == 0 || bits == SIGN_BITS,
        bits == SIGN_BITS ==> JitterSample::clamped(bits) == bits,
{
}

/// A restart counter goes up by one each time and stays at its end.
pub proof fn law_a_restart_counts_one(value: u64)
    ensures
        value < u64::MAX ==> saturating_bump(value) == value + 1,
        value == u64::MAX ==> saturating_bump(value) == value,
{
}

/// A child comes back after every exit, after failures alone, or never, as its
/// condition says: one that restarts after some exit restarts after every
/// failure, and one told never to restart never does.
pub proof fn law_a_restart_follows_its_condition(
    policy: RestartPolicy,
    exit: Exit,
    restart: bool,
)
    requires
        call_ensures(RestartPolicy::should_restart, (policy, &exit), restart),
    ensures
        policy.condition is Always ==> restart,
        policy.condition is Never ==> !restart,
        policy.condition is OnFailure ==> (restart <==> exit.failure),
        restart && !exit.failure ==> policy.condition is Always,
{
}

/// An aborted child is given a tenth of its grace to unwind, but never less than
/// one millisecond nor more than ten.
pub proof fn law_an_aborted_child_gets_a_tenth_of_its_grace(grace: Duration, beat: Duration)
    requires
        call_ensures(tidy_abort_beat, (grace,), beat),
    ensures
        1_000_000 <= beat@ <= 10_000_000,
        10_000_000 <= grace@ <= 100_000_000 ==> beat@ == grace@ / 10,
        grace@ < 10_000_000 ==> beat@ == 1_000_000,
        grace@ > 100_000_000 ==> beat@ == 10_000_000,
{
}

/// What resolving a child's options gives its scope: each field the child left
/// out is the scope's default, each one it declared is its own, and resolution
/// succeeds wherever both are usable.
pub proof fn law_resolution_inherits_from_the_scope(
    options: CommonOptions,
    defaults: ResolvedDefaults,
    default_readiness: Readiness,
    resolved: Result<ResolvedCommonOptions, InvalidPolicy>,
)
    requires
        call_ensures(
            resolve_common,
            (&options, &defaults, ChildMode::Restartable, default_readiness),
            resolved,
        ),
    ensures
        defaults.fault() is None && (options.restart matches Some(own) ==> usable(own.backoff)) && (
        options.readiness_deadline matches ReadinessDeadline::Bounded(bound) ==> bound@ > 0)
            ==> resolved is Ok,
        resolved matches Ok(common) ==> {
            &&& common.restart == match options.restart {
                Some(own) => own,
                None => defaults.child_restart,
            }
            &&& common.shutdown == match options.shutdown {
                Some(own) => own,
                None => defaults.child_shutdown,
            }
            &&& common.mailbox_shutdown == match options.mailbox_shutdown {
                Some(own) => own,
                None => defaults.mailbox_shutdown,
            }
            &&& options.mailbox is None ==> common.mailbox == defaults.mailbox
            &&& common.readiness_deadline == match options.readiness_deadline {
                ReadinessDeadline::Inherit => defaults.readiness_deadline,
                own => own,
            }
        },
{
    law_only_usable_options_are_accepted(options, defaults);
}

/// The delay of an attempt is what its scaling gave, for every attempt after
/// the first, up to the maximum and without jitter.
pub proof fn law_a_restart_waits_as_long_as_scaling_gave(
    base: Duration,
    factor: BackoffFactor,
    max: Duration,
    attempt: RestartAttempt,
    sample: JitterSample,
    span: Duration,
    jittered: Duration,
    derived: Duration,
    delay: Duration,
)
    requires
        attempt.0 > 1,
        factor.0 != ONE_BITS,
        call_ensures(
            Backoff::derived_delay,
            (
                (Backoff::Exponential { base, factor, max, jitter: Jitter::Off }),
                attempt,
                Some(span),
            ),
            derived,
        ),
        call_ensures(
            Backoff::next_delay,
            (
                (Backoff::Exponential { base, factor, max, jitter: Jitter::Off }),
                attempt,
                sample,
                Some(span),
                jittered,
            ),
            delay,
        ),
    ensures
        span@ <= max@ ==> derived == span && delay@ == span@,
        span@ > max@ ==> derived == max && delay@ == max@,
{
}

} // verus!
