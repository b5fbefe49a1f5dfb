use sabiden::rate_limiter::{
    parse_retry_after, round_up_secs, OutboundRateLimiter, RateLimitDecision, RateLimiterConfig,
};
use sabiden::time::{Clock, Duration, Instant};

#[test]
fn ttc_5_7_1_first_invite_is_allowed() {
    let mut limiter = OutboundRateLimiter::new();
    let decision = limiter.check_and_record("0312345678");
    assert_eq!(
        decision,
        RateLimitDecision::Allow {
            previous_interval: None
        }
    );
}

#[test]
fn ttc_5_7_1_second_invite_within_min_interval_is_denied() {
    let mut limiter = OutboundRateLimiter::with_config(RateLimiterConfig {
        min_interval: Duration::from_secs(3),
        failure_backoff_steps: vec![],
    });
    let t0 = Clock::start().now();
    assert!(matches!(
        limiter.check_and_record_at("0312345678", t0),
        RateLimitDecision::Allow {
            previous_interval: None
        }
    ));
    let t1 = t0.plus(Duration::from_secs(1));
    let decision = limiter.check_and_record_at("0312345678", t1);
    match decision {
        RateLimitDecision::Deny { retry_after } => {
            assert_eq!(retry_after, Duration::from_secs(2));
        }
        other => panic!("expected Deny, got {:?}", other),
    }
}

#[test]
fn ttc_5_7_1_invite_after_min_interval_is_allowed() {
    let mut limiter = OutboundRateLimiter::with_config(RateLimiterConfig {
        min_interval: Duration::from_secs(3),
        failure_backoff_steps: vec![],
    });
    let t0 = Clock::start().now();
    assert!(matches!(
        limiter.check_and_record_at("0312345678", t0),
        RateLimitDecision::Allow {
            previous_interval: None
        }
    ));
    let t1 = t0.plus(Duration::from_secs(3));
    match limiter.check_and_record_at("0312345678", t1) {
        RateLimitDecision::Allow {
            previous_interval: Some(d),
        } => {
            assert_eq!(d, Duration::from_secs(3));
        }
        other => panic!("expected Allow with previous_interval, got {:?}", other),
    }
}

#[test]
fn rate_limiter_is_per_aor() {
    let mut limiter = OutboundRateLimiter::with_config(RateLimiterConfig {
        min_interval: Duration::from_secs(3),
        failure_backoff_steps: vec![],
    });
    let t0 = Clock::start().now();
    assert!(matches!(
        limiter.check_and_record_at("alice", t0),
        RateLimitDecision::Allow {
            previous_interval: None
        }
    ));
    assert!(matches!(
        limiter.check_and_record_at("bob", t0.plus(Duration::from_millis(100))),
        RateLimitDecision::Allow {
            previous_interval: None
        }
    ));
}

#[test]
fn ttc_5_7_1_failure_backoff_extends_interval() {
    let mut limiter = OutboundRateLimiter::with_config(RateLimiterConfig {
        min_interval: Duration::from_secs(3),
        failure_backoff_steps: vec![Duration::from_secs(5), Duration::from_secs(10)],
    });
    let t0 = Clock::start().now();
    assert!(matches!(
        limiter.check_and_record_at("0312345678", t0),
        RateLimitDecision::Allow {
            previous_interval: None
        }
    ));
    limiter.record_failure_at("0312345678", 500, None, t0.plus(Duration::from_secs(1)));
    let decision = limiter.check_and_record_at("0312345678", t0.plus(Duration::from_secs(4)));
    match decision {
        RateLimitDecision::Deny { retry_after } => {
            assert_eq!(retry_after, Duration::from_secs(1));
        }
        other => panic!("expected Deny, got {:?}", other),
    }
    match limiter.check_and_record_at("0312345678", t0.plus(Duration::from_secs(6))) {
        RateLimitDecision::Allow {
            previous_interval: Some(d),
        } => {
            assert_eq!(d, Duration::from_secs(6));
        }
        other => panic!("expected Allow, got {:?}", other),
    }
}

#[test]
fn rfc3261_20_33_retry_after_extends_deny_window() {
    let mut limiter = OutboundRateLimiter::with_config(RateLimiterConfig {
        min_interval: Duration::from_secs(3),
        failure_backoff_steps: vec![Duration::from_secs(5)],
    });
    let t0 = Clock::start().now();
    assert!(matches!(
        limiter.check_and_record_at("0312345678", t0),
        RateLimitDecision::Allow {
            previous_interval: None
        }
    ));
    limiter.record_failure_at("0312345678", 500, Some(60), t0.plus(Duration::from_secs(1)));
    let decision = limiter.check_and_record_at("0312345678", t0.plus(Duration::from_secs(10)));
    match decision {
        RateLimitDecision::Deny { retry_after } => {
            assert!(
                retry_after >= Duration::from_secs(50)
                    && retry_after <= Duration::from_secs(52),
                "expected ~51s, got {:?}",
                retry_after
            );
        }
        other => panic!("expected Deny, got {:?}", other),
    }
}

#[test]
fn record_success_resets_failure_streak() {
    let mut limiter = OutboundRateLimiter::with_config(RateLimiterConfig {
        min_interval: Duration::from_secs(3),
        failure_backoff_steps: vec![Duration::from_secs(5)],
    });
    let t0 = Clock::start().now();
    let _ = limiter.check_and_record_at("0312345678", t0);
    limiter.record_failure_at("0312345678", 500, None, t0);
    let snap = limiter.snapshot("0312345678").unwrap();
    assert_eq!(snap.1, 1);
    limiter.record_success("0312345678");
    let snap = limiter.snapshot("0312345678").unwrap();
    assert_eq!(snap.1, 0);
}

#[test]
fn rate_limiter_4xx_does_not_increment_failure_streak() {
    let mut limiter = OutboundRateLimiter::new();
    let t0 = Clock::start().now();
    let _ = limiter.check_and_record_at("0312345678", t0);
    limiter.record_failure_at("0312345678", 486, None, t0);
    let snap = limiter.snapshot("0312345678").unwrap();
    assert_eq!(snap.1, 0);
}

#[test]
fn round_up_secs_rounds_up_and_min_1() {
    assert_eq!(
        round_up_secs(Duration::from_millis(100)),
        Duration::from_secs(1)
    );
    assert_eq!(
        round_up_secs(Duration::from_millis(2300)),
        Duration::from_secs(3)
    );
    assert_eq!(
        round_up_secs(Duration::from_secs(5)),
        Duration::from_secs(5)
    );
    assert_eq!(round_up_secs(Duration::from_secs(0)), Duration::from_secs(1));
}

#[test]
fn rfc3261_20_33_parse_retry_after_plain_integer() {
    assert_eq!(parse_retry_after("5"), Some(5));
    assert_eq!(parse_retry_after("120"), Some(120));
    assert_eq!(parse_retry_after(" 30"), Some(30));
}

#[test]
fn rfc3261_20_33_parse_retry_after_with_comment_and_param() {
    assert_eq!(parse_retry_after("5 (NGN cooldown)"), Some(5));
    assert_eq!(parse_retry_after("60;duration=120"), Some(60));
    assert_eq!(parse_retry_after("18000;duration=3600"), Some(18000));
}

#[test]
fn parse_retry_after_rejects_invalid_input() {
    assert_eq!(parse_retry_after(""), None);
    assert_eq!(parse_retry_after("abc"), None);
    assert_eq!(parse_retry_after("-5"), None);
}

#[test]
fn allow_carries_previous_interval_for_metrics() {
    let mut limiter = OutboundRateLimiter::with_config(RateLimiterConfig {
        min_interval: Duration::from_secs(1),
        failure_backoff_steps: vec![],
    });
    let t0 = Clock::start().now();
    match limiter.check_and_record_at("0312345678", t0) {
        RateLimitDecision::Allow { previous_interval } => {
            assert!(previous_interval.is_none());
        }
        other => panic!("expected Allow, got {:?}", other),
    }
    match limiter.check_and_record_at("0312345678", t0.plus(Duration::from_secs(5))) {
        RateLimitDecision::Allow {
            previous_interval: Some(d),
        } => {
            assert_eq!(d, Duration::from_secs(5));
        }
        other => panic!("expected Allow with 5s, got {:?}", other),
    }
    match limiter.check_and_record_at("0312345678", t0.plus(Duration::from_secs(10))) {
        RateLimitDecision::Allow {
            previous_interval: Some(d),
        } => {
            assert_eq!(d, Duration::from_secs(5));
        }
        other => panic!("expected Allow with 5s, got {:?}", other),
    }
    match limiter.check_and_record_at("alice", t0.plus(Duration::from_secs(11))) {
        RateLimitDecision::Allow { previous_interval } => {
            assert!(previous_interval.is_none());
        }
        other => panic!("expected Allow for alice, got {:?}", other),
    }
}

#[test]
fn failure_streak_clamps_to_last_backoff_step() {
    let mut limiter = OutboundRateLimiter::with_config(RateLimiterConfig {
        min_interval: Duration::from_secs(3),
        failure_backoff_steps: vec![Duration::from_secs(5), Duration::from_secs(30)],
    });
    let t0 = Clock::start().now();
    let _ = limiter.check_and_record_at("0312345678", t0);
    limiter.record_failure_at("0312345678", 500, None, t0);
    limiter.record_failure_at("0312345678", 500, None, t0);
    limiter.record_failure_at("0312345678", 500, None, t0);
    let decision = limiter.check_and_record_at("0312345678", t0.plus(Duration::from_secs(15)));
    match decision {
        RateLimitDecision::Deny { retry_after } => {
            assert_eq!(retry_after, Duration::from_secs(15));
        }
        other => panic!("expected Deny, got {:?}", other),
    }
}

fn limiter(min_interval: u64, steps: Vec<u64>) -> OutboundRateLimiter {
    OutboundRateLimiter::with_config(RateLimiterConfig {
        min_interval: Duration::from_secs(min_interval),
        failure_backoff_steps: steps.into_iter().map(Duration::from_secs).collect(),
    })
}

fn at(secs: u64) -> Instant {
    Instant::after_start(Duration::from_secs(secs))
}

fn retry_after(d: RateLimitDecision) -> Duration {
    match d {
        RateLimitDecision::Deny { retry_after } => retry_after,
        other => panic!("expected Deny, got {:?}", other),
    }
}

#[test]
fn default_parameters_are_three_seconds_and_three_steps() {
    let config = RateLimiterConfig::default();
    assert_eq!(config.min_interval, Duration::from_secs(3));
    assert_eq!(
        config.failure_backoff_steps,
        vec![
            Duration::from_secs(5),
            Duration::from_secs(10),
            Duration::from_secs(30)
        ]
    );
    let limiter = OutboundRateLimiter::default();
    assert_eq!(limiter.config().min_interval, Duration::from_secs(3));
    assert!(limiter.snapshot("anyone").is_none());
}

#[test]
fn refusal_leaves_no_trace_and_waiting_it_out_suffices() {
    let mut l = limiter(3, vec![]);
    let _ = l.check_and_record_at("a", at(10));
    let before = l.snapshot("a");
    let wait = retry_after(l.check_and_record_at(
        "a",
        at(10).plus(Duration::from_millis(500)),
    ));
    assert_eq!(wait, Duration::from_secs(3));
    assert_eq!(l.snapshot("a"), before);
    assert!(matches!(
        l.check_and_record_at("a", at(10).plus(Duration::from_millis(500)).plus(wait)),
        RateLimitDecision::Allow { .. }
    ));
}

#[test]
fn two_allowed_invites_are_at_least_min_interval_apart() {
    let mut l = limiter(3, vec![5]);
    let mut allowed: Vec<u64> = Vec::new();
    for s in 0..40 {
        if matches!(
            l.check_and_record_at("a", at(s)),
            RateLimitDecision::Allow { .. }
        ) {
            allowed.push(s);
        }
        if s == 7 {
            l.record_failure_at("a", 503, None, at(s));
        }
        if s == 20 {
            l.record_success("a");
        }
    }
    assert_eq!(allowed, vec![0, 3, 6, 11, 16, 21, 24, 27, 30, 33, 36, 39]);
}

#[test]
fn retry_after_window_is_not_made_shorter() {
    let mut l = limiter(1, vec![]);
    let _ = l.check_and_record_at("a", at(0));
    l.record_failure_at("a", 503, Some(100), at(0));
    l.record_failure_at("a", 503, Some(1), at(0));
    assert_eq!(
        retry_after(l.check_and_record_at("a", at(40))),
        Duration::from_secs(60)
    );
    assert_eq!(
        retry_after(l.check_and_record_at("a", at(99))),
        Duration::from_secs(1)
    );
    assert!(matches!(
        l.check_and_record_at("a", at(100)),
        RateLimitDecision::Allow { .. }
    ));
    assert_eq!(l.snapshot("a"), Some((at(100), 2, None)));
}

#[test]
fn retry_after_of_a_client_failure_does_not_count() {
    let mut l = limiter(1, vec![]);
    let _ = l.check_and_record_at("a", at(0));
    l.record_failure_at("a", 486, Some(100), at(0));
    assert!(matches!(
        l.check_and_record_at("a", at(1)),
        RateLimitDecision::Allow { .. }
    ));
}

#[test]
fn failure_of_an_unknown_aor_starts_its_record() {
    let mut l = limiter(3, vec![5]);
    l.record_failure_at("a", 404, None, at(2));
    assert_eq!(l.snapshot("a"), Some((at(2), 0, None)));
    l.record_failure_at("b", 500, Some(7), at(2));
    assert_eq!(l.snapshot("b"), Some((at(2), 1, Some(9_000_000_000))));
    l.record_success("c");
    assert!(l.snapshot("c").is_none());
}

#[test]
fn clock_driven_calls_agree_with_the_timed_ones() {
    let mut l = limiter(3600, vec![]);
    assert_eq!(
        l.check_and_record("a"),
        RateLimitDecision::Allow {
            previous_interval: None
        }
    );
    assert_eq!(retry_after(l.check_and_record("a")), Duration::from_secs(3600));
    l.record_failure("a", 500, Some(7200));
    let wait = retry_after(l.check_and_record("a"));
    assert!(wait > Duration::from_secs(7190) && wait <= Duration::from_secs(7200));
    let first = l.now();
    let second = l.now();
    assert!(first <= second);
}

#[test]
fn parse_retry_after_refuses_what_does_not_fit() {
    assert_eq!(parse_retry_after("4294967295"), Some(4294967295));
    assert_eq!(parse_retry_after("4294967296"), None);
    assert_eq!(parse_retry_after("99999999999999999999999"), None);
    assert_eq!(parse_retry_after("\u{3000}\t 12"), Some(12));
    assert_eq!(parse_retry_after("007"), Some(7));
}

#[test]
fn durations_hold_seconds_and_nanoseconds() {
    let d = Duration::from_millis(2345);
    assert_eq!(d.as_secs(), 2);
    assert_eq!(d.subsec_nanos(), 345_000_000);
    assert_eq!(d.as_millis(), 2345);
    assert_eq!(d.as_nanos(), 2_345_000_000);
    assert_eq!(Duration::saturating_from_nanos(2_345_000_000), d);
    let longest = Duration::saturating_from_nanos(u128::MAX);
    assert_eq!(longest.as_secs(), u64::MAX);
    assert_eq!(round_up_secs(longest), Duration::from_secs(u64::MAX));
    assert_eq!(
        at(1).saturating_duration_since(at(2)),
        Duration::from_secs(0)
    );
    assert_eq!(
        at(5).saturating_duration_since(at(2)),
        Duration::from_secs(3)
    );
}

#[test]
fn first_permission_has_no_interval_after_a_mere_failure() {
    let mut l = limiter(3, vec![]);
    l.record_failure_at("x", 486, None, at(10));
    assert!(matches!(
        l.check_and_record_at("x", at(12)),
        RateLimitDecision::Deny { .. }
    ));
    assert_eq!(
        l.check_and_record_at("x", at(13)),
        RateLimitDecision::Allow {
            previous_interval: None
        }
    );
    l.record_success("x");
    assert_eq!(
        l.check_and_record_at("x", at(20)),
        RateLimitDecision::Allow {
            previous_interval: Some(Duration::from_secs(7))
        }
    );
}
