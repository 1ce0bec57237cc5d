use shelterwood::exit::Exit;
use shelterwood::identity::ChildId;
use shelterwood::policy::{
    half_duration, resolve_common, resolve_default_mailbox, tidy_abort_beat, Backoff,
    BackoffFactor, Capacity, ChildMode, CommonOptions, Growth, Intensity, InvalidPolicy, Jitter,
    JitterSample, Mailbox, MailboxShutdown, PolicyError, PolicyField, Readiness,
    ReadinessDeadline, ResolvedDefaults, RestartAttempt, RestartCondition, RestartCount,
    RestartPolicy, Retention, ScopeDefaults, Shutdown, TotalRestarts,
};
use shelterwood::time::Duration;

fn millis(value: u64) -> Duration {
    Duration::from_millis(value)
}

fn secs(value: u64) -> Duration {
    Duration::from_secs(value)
}

fn nanos(value: u128) -> Duration {
    Duration::from_nanos(value)
}

fn factor(value: f64) -> BackoffFactor {
    BackoffFactor::new(value.to_bits()).expect("valid factor")
}

fn sample(value: f64) -> JitterSample {
    JitterSample::new(value.to_bits())
}

fn as_float(span: Duration) -> f64 {
    span.as_nanos() as f64
}

fn from_float(value: f64) -> Duration {
    let rounded = value.round();
    let longest = Duration::max_value();
    if !rounded.is_finite() || rounded >= as_float(longest) {
        longest
    } else {
        Duration::from_nanos(rounded.max(0.0) as u128)
    }
}

/// The delay a runtime derives: the two floating-point products are taken here and the
/// choice between them is the library's.
fn delay(backoff: Backoff, attempt: u64, sample: JitterSample) -> Duration {
    let attempt = RestartAttempt(attempt);
    let scaled = match backoff.growth(attempt) {
        None => None,
        Some(Growth { base, factor, exponent, max }) => {
            let product = as_float(base) * f64::from_bits(factor.0).powi(exponent);
            if product < as_float(max) {
                Some(from_float(product))
            } else {
                None
            }
        }
    };
    let derived = backoff.derived_delay(attempt, scaled);
    let spread = 0.5 + f64::from_bits(sample.0) * 0.5;
    let jittered = from_float(as_float(derived) * spread);
    backoff.next_delay(attempt, sample, scaled, jittered)
}

fn one_below_the_longest() -> Duration {
    nanos(Duration::max_value().as_nanos() - 1)
}

#[test]
fn restart_counters_saturate_at_the_numeric_limit() {
    let attempt = RestartAttempt(u64::MAX);
    let count = RestartCount(u64::MAX);
    let total = TotalRestarts(u64::MAX);

    assert_eq!(attempt.bump(), attempt);
    assert_eq!(count.bump(), count);
    assert_eq!(total.bump(), total);
}

#[test]
fn restart_counters_count_up_from_zero() {
    assert_eq!(RestartAttempt::zero().bump().bump().get(), 2);
    assert_eq!(RestartCount::zero().bump().get(), 1);
    assert_eq!(TotalRestarts::zero().get(), 0);
    assert_eq!(TotalRestarts::zero().bump().get(), 1);
}

#[test]
fn shipped_defaults_match_the_normative_policy() {
    assert_eq!(Mailbox::default(), Mailbox::Queue(Capacity::new(64)));
    assert_eq!(
        Shutdown::default(),
        Shutdown::Graceful {
            grace: Duration::from_secs(5),
        }
    );
    assert_eq!(
        ResolvedDefaults::default().readiness_deadline,
        ReadinessDeadline::Bounded(Duration::from_secs(30))
    );
    assert_eq!(
        Intensity::default(),
        Intensity {
            max_restarts: 5,
            within: Duration::from_secs(30),
        }
    );

    assert_eq!(tidy_abort_beat(Duration::zero()), Duration::from_millis(1));
    assert_eq!(
        tidy_abort_beat(Duration::from_millis(50)),
        Duration::from_millis(5)
    );
    assert_eq!(
        tidy_abort_beat(Duration::from_millis(100)),
        Duration::from_millis(10)
    );
    assert_eq!(
        tidy_abort_beat(Duration::from_secs(5)),
        Duration::from_millis(10)
    );
}

#[test]
fn backoff_progression_and_jitter_are_pure_math() {
    let backoff = Backoff::exponential(millis(10), factor(2.0), millis(35), Jitter::Off)
        .expect("valid backoff");
    assert_eq!(delay(backoff, 1, sample(0.9)), millis(10));
    assert_eq!(delay(backoff, 2, sample(0.1)), millis(20));
    assert_eq!(delay(backoff, 3, sample(0.5)), millis(35));
    assert_eq!(delay(backoff, 99, sample(0.5)), millis(35));

    let jittered = Backoff::fixed(millis(10), Jitter::Equal).expect("valid backoff");
    assert_eq!(delay(jittered, 1, sample(0.0)), millis(5));
    assert_eq!(delay(jittered, 1, sample(0.5)), nanos(7_500_000));
}

#[test]
fn jitter_samples_own_the_half_open_unit_interval() {
    let held = |sample: JitterSample| f64::from_bits(sample.0);
    assert_eq!(held(sample(-1.0)), 0.0);
    assert_eq!(held(sample(f64::NAN)), 0.0);
    assert_eq!(held(sample(f64::INFINITY)), 0.0);
    assert_eq!(held(sample(1.0)), 1.0 - f64::EPSILON);
    assert_eq!(held(sample(0 as f64 / u64::MAX as f64)), 0.0);
    assert_eq!(
        held(sample(u64::MAX as f64 / u64::MAX as f64)),
        1.0 - f64::EPSILON
    );
}

#[test]
fn jitter_samples_compare_as_numbers() {
    assert_eq!(sample(0.0), sample(-0.0));
    assert_eq!(sample(-3.0), sample(-0.0));
    assert_eq!(sample(0.25), sample(0.25));
    assert_ne!(sample(0.25), sample(0.5));
    assert_ne!(sample(0.0), sample(f64::MIN_POSITIVE));
}

#[test]
fn equal_jitter_keeps_to_the_upper_half() {
    let odd = nanos(1_000_001);
    let backoff = Backoff::fixed(odd, Jitter::Equal).expect("valid backoff");
    for value in [0.0, -0.0, f64::MIN_POSITIVE, 0.25, 0.5, 0.999, 1.0] {
        let jittered = delay(backoff, 1, sample(value)).as_nanos();
        assert!((500_001..=1_000_001).contains(&jittered), "{value} gave {jittered}");
    }
    let grown = Backoff::exponential(millis(10), factor(2.0), millis(35), Jitter::Equal)
        .expect("valid backoff");
    assert_eq!(delay(grown, 2, sample(0.0)), millis(10));
    assert_eq!(delay(grown, 2, sample(0.5)), millis(15));
}

#[test]
fn jitter_samples_inside_the_interval_are_kept() {
    for value in [f64::MIN_POSITIVE, 0.25, 0.5, 1.0 - f64::EPSILON] {
        assert_eq!(sample(value).0, value.to_bits());
        assert!(!sample(value).at_lower_edge());
    }
    // The value between the last sample and one is clamped with one itself.
    assert_eq!(sample(1.0 - f64::EPSILON / 2.0).0, (1.0 - f64::EPSILON).to_bits());
    assert_eq!(sample(7.0).0, (1.0 - f64::EPSILON).to_bits());
    assert!(sample(0.0).at_lower_edge());
    assert!(sample(-0.0).at_lower_edge());
    assert!(sample(f64::NEG_INFINITY).at_lower_edge());
}

#[test]
fn extreme_backoffs_never_round_above_their_exact_maximum() {
    let maximum = one_below_the_longest();
    for jitter in [Jitter::Off, Jitter::Equal] {
        let backoff = Backoff::exponential(nanos(1), factor(f64::MAX), maximum, jitter)
            .expect("valid extreme backoff");
        for value in [
            f64::NEG_INFINITY,
            -1.0,
            0.0,
            1.0 - f64::EPSILON,
            1.0,
            f64::INFINITY,
            f64::NAN,
        ] {
            assert!(delay(backoff, u64::MAX, sample(value)).as_nanos() <= maximum.as_nanos());
        }
    }

    let fixed = Backoff::fixed(maximum, Jitter::Equal).expect("valid fixed backoff");
    assert!(delay(fixed, u64::MAX, sample(1.0)).as_nanos() <= maximum.as_nanos());
}

#[test]
fn invalid_policy_data_is_rejected_eagerly() {
    assert_eq!(
        Backoff::fixed(Duration::zero(), Jitter::Off),
        Err(PolicyError::ZeroDuration)
    );
    assert_eq!(Mailbox::queue(0), Err(PolicyError::ZeroCapacity));
    assert_eq!(
        ReadinessDeadline::bounded(Duration::zero()),
        Err(PolicyError::ZeroDuration)
    );
    assert_eq!(
        Intensity::new(1, Duration::zero()),
        Err(PolicyError::ZeroDuration)
    );
    let two = factor(2.0);
    assert_eq!(
        Backoff::exponential(Duration::zero(), two, secs(1), Jitter::Off),
        Err(PolicyError::ZeroDuration)
    );
    assert_eq!(
        Backoff::exponential(secs(1), two, Duration::zero(), Jitter::Off),
        Err(PolicyError::ZeroDuration)
    );
    assert_eq!(
        Backoff::exponential(secs(2), two, secs(1), Jitter::Off),
        Err(PolicyError::BackoffMaximumBeforeBase)
    );
    let just_below_one = f64::from_bits(1.0_f64.to_bits() - 1);
    for invalid in [
        f64::NAN,
        f64::INFINITY,
        f64::NEG_INFINITY,
        just_below_one,
        0.5,
        0.0,
        -1.0,
    ] {
        assert_eq!(
            BackoffFactor::new(invalid.to_bits()),
            Err(PolicyError::InvalidBackoffFactor),
            "factor {invalid} must be rejected"
        );
    }
    assert!(BackoffFactor::new(1.0_f64.to_bits()).is_ok());
    assert!(BackoffFactor::new(f64::MAX.to_bits()).is_ok());
    assert!(Mailbox::queue(1).is_ok());
    assert!(ReadinessDeadline::bounded(nanos(1)).is_ok());
    assert!(Intensity::new(0, nanos(1)).is_ok());
    assert!(Backoff::fixed(nanos(1), Jitter::Equal).is_ok());
    assert!(
        Backoff::exponential(nanos(1), factor(1.0), nanos(1), Jitter::Equal).is_ok(),
        "an exponential maximum equal to its base is valid"
    );
}

#[test]
fn unit_multiplier_backoff_delays_are_exact_beyond_float_precision() {
    // This count of nanoseconds cannot survive a round trip through a float.
    let base = nanos((1 << 60) + 1);
    let longest = Duration::max_value();
    let doubling =
        Backoff::exponential(base, factor(2.0), longest, Jitter::Off).expect("valid backoff");
    assert_eq!(delay(doubling, 1, sample(0.9)), base);

    let flat =
        Backoff::exponential(base, factor(1.0), longest, Jitter::Off).expect("valid backoff");
    assert_eq!(delay(flat, 1, sample(0.0)), base);
    assert_eq!(delay(flat, u64::MAX, sample(0.0)), base);

    let fixed = Backoff::fixed(base, Jitter::Off).expect("valid backoff");
    assert_eq!(delay(fixed, u64::MAX, sample(0.99)), base);

    let huge_fixed = Backoff::fixed(longest, Jitter::Off).expect("valid backoff");
    assert_eq!(delay(huge_fixed, u64::MAX, sample(0.5)), longest);
}

#[test]
fn saturated_backoff_delays_land_exactly_on_the_configured_maximum() {
    // One nanosecond below the longest span does not survive a round trip through a float,
    // so an exact saturation is observable.
    let max = one_below_the_longest();
    let explosive = Backoff::exponential(nanos(1), factor(f64::MAX), max, Jitter::Off)
        .expect("valid backoff");
    assert_eq!(delay(explosive, 2, sample(0.0)), max);
    assert_eq!(delay(explosive, u64::MAX, sample(0.0)), max);

    let doubling =
        Backoff::exponential(secs(1), factor(2.0), max, Jitter::Off).expect("valid backoff");
    assert_eq!(delay(doubling, 200, sample(0.0)), max);
}

#[test]
fn large_exponent_backoff_is_monotone_and_saturates_at_the_maximum() {
    let max = secs(3_600);
    let backoff =
        Backoff::exponential(millis(1), factor(1.5), max, Jitter::Off).expect("valid backoff");
    let clamp = u64::try_from(i32::MAX).expect("the largest exponent is a natural number");
    let attempts = [
        1,
        2,
        16,
        64,
        256,
        clamp - 1,
        clamp,
        clamp + 1,
        clamp + 2,
        u64::MAX - 1,
        u64::MAX,
    ];
    let mut previous = Duration::zero();
    for attempt in attempts {
        let next = delay(backoff, attempt, sample(0.0));
        assert!(
            next.as_nanos() >= previous.as_nanos(),
            "attempt {attempt}: delay {next:?} regressed below {previous:?}"
        );
        assert!(
            next.as_nanos() <= max.as_nanos(),
            "attempt {attempt}: delay {next:?} exceeds the maximum"
        );
        previous = next;
    }
    for attempt in [clamp - 1, clamp, clamp + 1, u64::MAX - 1, u64::MAX] {
        assert_eq!(
            delay(backoff, attempt, sample(0.0)),
            max,
            "attempt {attempt}: the astronomical-attempt plateau is the exact maximum"
        );
    }
}

#[test]
fn the_exponent_is_clamped_at_the_largest_power() {
    let backoff = Backoff::exponential(millis(1), factor(1.5), secs(1), Jitter::Off)
        .expect("valid backoff");
    let exponent = |attempt: u64| {
        backoff.growth(RestartAttempt(attempt)).map(|growth| growth.exponent)
    };
    assert_eq!(exponent(0), None, "an attempt below one counts as the first");
    assert_eq!(exponent(1), None);
    assert_eq!(exponent(2), Some(1));
    assert_eq!(exponent(2_147_483_648), Some(i32::MAX));
    assert_eq!(exponent(2_147_483_649), Some(i32::MAX));
    assert_eq!(exponent(u64::MAX), Some(i32::MAX));
}

#[test]
fn zero_sample_equal_jitter_is_the_exact_half_delay() {
    // Half of an odd nanosecond count rounds up by exactly half a nanosecond.
    let odd = nanos((1 << 60) + 1);
    let fixed = Backoff::fixed(odd, Jitter::Equal).expect("valid backoff");
    let exact_half = nanos((1 << 59) + 1);
    assert_eq!(delay(fixed, 1, sample(0.0)), exact_half);
    // Non-finite and negative samples clamp to the same exact edge.
    for value in [f64::NAN, f64::NEG_INFINITY, -3.0] {
        assert_eq!(delay(fixed, 1, sample(value)), exact_half);
    }

    let even = Backoff::fixed(nanos(1 << 60), Jitter::Equal).expect("valid backoff");
    assert_eq!(delay(even, 1, sample(0.0)), nanos(1 << 59));
}

#[test]
fn immediate_backoff_never_waits() {
    for attempt in [0, 1, u64::MAX] {
        assert_eq!(delay(Backoff::Immediate, attempt, sample(0.7)), Duration::zero());
    }
    assert_eq!(half_duration(nanos(7)), nanos(4));
    assert_eq!(half_duration(Duration::zero()), Duration::zero());
}

#[test]
fn restart_policy_is_never_matches_only_the_never_condition() {
    assert!(RestartPolicy::new(RestartCondition::Never, Backoff::Immediate).is_never());
    assert!(!RestartPolicy::new(RestartCondition::OnFailure, Backoff::Immediate).is_never());
    assert!(!RestartPolicy::new(RestartCondition::Always, Backoff::Immediate).is_never());
}

fn ended(failed: bool) -> Exit {
    Exit { started: true, failure: failed, evidence: 1 }
}

#[test]
fn a_restart_follows_the_condition_and_the_exit() {
    let restarts = |condition: RestartCondition, failed: bool| {
        RestartPolicy::new(condition, Backoff::Immediate).should_restart(&ended(failed))
    };
    assert!(restarts(RestartCondition::Always, false));
    assert!(restarts(RestartCondition::Always, true));
    assert!(!restarts(RestartCondition::OnFailure, false));
    assert!(restarts(RestartCondition::OnFailure, true));
    assert!(!restarts(RestartCondition::Never, false));
    assert!(!restarts(RestartCondition::Never, true));

    let policy = RestartPolicy::default();
    assert_eq!(policy.condition(), RestartCondition::OnFailure);
    assert_eq!(policy.backoff(), Backoff::Immediate);
}

#[test]
fn defaults_overlay_as_one_value_and_mailbox_capacity_resolves_by_kind() {
    let library = ResolvedDefaults::default();
    let latest = library
        .overlay(&ScopeDefaults {
            mailbox: Some(Mailbox::latest()),
            ..ScopeDefaults::default()
        })
        .expect("valid defaults");
    assert_eq!(latest.mailbox, Mailbox::Latest);

    let deferred_queue = latest
        .overlay(&ScopeDefaults {
            mailbox: Some(Mailbox::queue_inherit()),
            ..ScopeDefaults::default()
        })
        .expect("valid defaults");
    assert_eq!(deferred_queue.mailbox, Mailbox::default());
    assert_eq!(deferred_queue.child_restart, latest.child_restart);
    assert_eq!(deferred_queue.child_shutdown, latest.child_shutdown);
}

#[test]
fn a_deferred_capacity_comes_from_the_inherited_queue() {
    let small = Mailbox::queue(3).expect("a positive capacity");
    let large = Mailbox::queue(9).expect("a positive capacity");
    let deferred = Some(Mailbox::queue_inherit());
    assert_eq!(resolve_default_mailbox(None, small), small);
    assert_eq!(resolve_default_mailbox(Some(large), small), large);
    assert_eq!(resolve_default_mailbox(deferred, small), small);
    assert_eq!(resolve_default_mailbox(deferred, Mailbox::latest()), Mailbox::default());
    assert_eq!(resolve_default_mailbox(Some(Mailbox::latest()), small), Mailbox::Latest);
}

#[test]
fn public_literal_representations_are_revalidated() {
    assert_eq!(
        Backoff::Fixed {
            delay: Duration::zero(),
            jitter: Jitter::Off,
        }
        .validate(),
        Err(PolicyError::ZeroDuration)
    );
    assert_eq!(
        Backoff::Exponential {
            base: Duration::zero(),
            factor: BackoffFactor(2.0_f64.to_bits()),
            max: secs(1),
            jitter: Jitter::Off,
        }
        .validate(),
        Err(PolicyError::ZeroDuration)
    );
    assert_eq!(
        Backoff::Exponential {
            base: secs(1),
            factor: BackoffFactor(f64::NAN.to_bits()),
            max: secs(2),
            jitter: Jitter::Off,
        }
        .validate(),
        Err(PolicyError::InvalidBackoffFactor)
    );
    assert_eq!(
        Backoff::Exponential {
            base: secs(2),
            factor: BackoffFactor(2.0_f64.to_bits()),
            max: secs(1),
            jitter: Jitter::Off,
        }
        .validate(),
        Err(PolicyError::BackoffMaximumBeforeBase)
    );
    assert_eq!(
        ReadinessDeadline::Bounded(Duration::zero()).validate_declared(),
        Err(PolicyError::ZeroDuration)
    );
    assert_eq!(
        Intensity {
            max_restarts: 0,
            within: Duration::zero(),
        }
        .validate(),
        Err(PolicyError::ZeroDuration)
    );
}

#[test]
fn inherited_and_resolved_policy_values_are_revalidated() {
    let invalid_restart = ResolvedDefaults {
        child_restart: RestartPolicy::new(
            RestartCondition::Always,
            Backoff::Fixed {
                delay: Duration::zero(),
                jitter: Jitter::Off,
            },
        ),
        ..ResolvedDefaults::default()
    };
    assert_eq!(
        invalid_restart.overlay(&ScopeDefaults {
            child_restart: Some(RestartPolicy::default()),
            ..ScopeDefaults::default()
        }),
        Err(InvalidPolicy::new(
            PolicyField::RestartBackoff,
            PolicyError::ZeroDuration
        ))
    );

    let unresolved = ResolvedDefaults {
        readiness_deadline: ReadinessDeadline::Inherit,
        ..ResolvedDefaults::default()
    };
    assert_eq!(
        unresolved.overlay(&ScopeDefaults::default()),
        Err(InvalidPolicy::new(
            PolicyField::ReadinessDeadline,
            PolicyError::UnresolvedReadinessDeadline
        ))
    );
}

#[test]
fn minimum_valid_literal_edges_are_accepted() {
    assert_eq!(
        Backoff::Fixed {
            delay: nanos(1),
            jitter: Jitter::Off,
        }
        .validate(),
        Ok(())
    );
    assert_eq!(
        Backoff::Exponential {
            base: nanos(1),
            factor: BackoffFactor(1.0_f64.to_bits()),
            max: nanos(1),
            jitter: Jitter::Equal,
        }
        .validate(),
        Ok(())
    );
    assert_eq!(
        ReadinessDeadline::Bounded(nanos(1)).validate_resolved(),
        Ok(())
    );
    assert_eq!(
        Intensity {
            max_restarts: 0,
            within: nanos(1),
        }
        .validate(),
        Ok(())
    );
}

#[test]
fn an_invalid_policy_names_the_path_that_leads_to_it() {
    let invalid = InvalidPolicy::new(PolicyField::Intensity, PolicyError::ZeroDuration)
        .prepend(&ChildId::new("leaf".to_string()))
        .prepend(&ChildId::new("root".to_string()));
    let path: Vec<&str> = invalid.path.iter().map(|id| id.as_str()).collect();
    assert_eq!(path, ["root", "leaf"]);
    assert_eq!(invalid.clone(), invalid);
    assert_eq!(invalid.field, PolicyField::Intensity);
    assert_eq!(invalid.error, PolicyError::ZeroDuration);
}

#[test]
fn declared_options_win_over_the_scope_defaults() {
    let scope = ResolvedDefaults::default();
    let declared = CommonOptions {
        restart: Some(RestartPolicy::new(RestartCondition::Always, Backoff::Immediate)),
        shutdown: Some(Shutdown::Abort),
        mailbox: Some(Mailbox::latest()),
        mailbox_shutdown: Some(MailboxShutdown::Discard),
        readiness: Some(Readiness::Manual),
        readiness_deadline: ReadinessDeadline::Unbounded,
        retention: Some(Retention::Retain),
    };
    let resolved =
        resolve_common(&declared, &scope, ChildMode::Restartable, Readiness::Immediate)
            .expect("valid options");
    assert_eq!(resolved.restart.condition(), RestartCondition::Always);
    assert_eq!(resolved.shutdown, Shutdown::Abort);
    assert_eq!(resolved.mailbox, Mailbox::Latest);
    assert_eq!(resolved.mailbox_shutdown, MailboxShutdown::Discard);
    assert_eq!(resolved.readiness, Readiness::Manual);
    assert_eq!(resolved.readiness_override, Some(Readiness::Manual));
    assert_eq!(resolved.readiness_deadline, ReadinessDeadline::Unbounded);
    assert_eq!(resolved.retention, Retention::Retain);

    let inherited =
        resolve_common(&CommonOptions::default(), &scope, ChildMode::Restartable, Readiness::Manual)
            .expect("valid options");
    assert_eq!(inherited.restart, scope.child_restart);
    assert_eq!(inherited.shutdown, scope.child_shutdown);
    assert_eq!(inherited.readiness, Readiness::Manual);
    assert_eq!(inherited.readiness_override, None);
    assert_eq!(inherited.readiness_deadline, scope.readiness_deadline);
}

#[test]
fn a_one_shot_child_resolves_to_no_restart() {
    let declared = CommonOptions {
        restart: Some(RestartPolicy::new(RestartCondition::Always, Backoff::Immediate)),
        ..CommonOptions::default()
    };
    let resolved = resolve_common(
        &declared,
        &ResolvedDefaults::default(),
        ChildMode::OneShot,
        Readiness::Immediate,
    )
    .expect("valid options");
    assert!(resolved.restart.is_never());
    assert!(!resolved.restart.should_restart(&ended(true)));
}

#[test]
fn invalid_declared_options_are_named() {
    let zero_delay = CommonOptions {
        restart: Some(RestartPolicy::new(
            RestartCondition::Always,
            Backoff::Fixed {
                delay: Duration::zero(),
                jitter: Jitter::Off,
            },
        )),
        ..CommonOptions::default()
    };
    assert_eq!(
        resolve_common(
            &zero_delay,
            &ResolvedDefaults::default(),
            ChildMode::Restartable,
            Readiness::Immediate,
        ),
        Err(InvalidPolicy::new(PolicyField::RestartBackoff, PolicyError::ZeroDuration))
    );
    let zero_deadline = CommonOptions {
        readiness_deadline: ReadinessDeadline::Bounded(Duration::zero()),
        ..CommonOptions::default()
    };
    assert_eq!(
        resolve_common(
            &zero_deadline,
            &ResolvedDefaults::default(),
            ChildMode::Restartable,
            Readiness::Immediate,
        ),
        Err(InvalidPolicy::new(PolicyField::ReadinessDeadline, PolicyError::ZeroDuration))
    );
}

#[test]
fn policy_errors_have_their_own_words() {
    assert_eq!(PolicyError::ZeroDuration.message(), "duration must be non-zero");
    assert_eq!(PolicyError::ZeroCapacity.message(), "mailbox capacity must be non-zero");
    assert_eq!(
        PolicyError::InvalidBackoffFactor.message(),
        "backoff factor must be finite and at least 1.0"
    );
    assert_eq!(
        PolicyError::BackoffMaximumBeforeBase.message(),
        "backoff maximum must not be shorter than its base"
    );
    assert_eq!(
        PolicyError::UnresolvedReadinessDeadline.message(),
        "readiness deadline must be resolved before execution"
    );
    assert_eq!(
        PolicyError::UnsupportedReadiness.message(),
        "readiness mode is not supported by this child kind"
    );
    assert_eq!(PolicyField::Intensity.label(), "restart intensity");
    assert_eq!(PolicyField::RestartBackoff.label(), "restart backoff");
    assert_eq!(PolicyField::ReadinessDeadline.label(), "readiness deadline");
}
