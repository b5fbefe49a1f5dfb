//! Per-AOR limits on outgoing INVITEs (TTC JJ-90.24 §5.7.1 and §5.7.3).
//!
//! A caller asks [`OutboundRateLimiter::check_and_record`] before it sends an
//! INVITE, and reports the outcome with `record_success` or `record_failure`.

use vstd::prelude::*;

use crate::table::Table;
use crate::text::{leading_digits_of, parse_digits, trim_start_of};
use crate::time::{nanos_between, Clock, Duration, Instant, NANOS_PER_SEC};

verus! {

/// What the limiter says to one INVITE.
#[derive(Debug, Clone, PartialEq, Eq)]
pub enum RateLimitDecision {
    /// The INVITE may go out.
    Allow {
        /// Time since the INVITE of the same AOR that was last let through,
        /// `None` for the first one.
        previous_interval: Option<Duration>,
    },
    /// The INVITE may not go out: answer 503 with `Retry-After`.
    Deny {
        /// How long to wait, in whole seconds and at least one.
        retry_after: Duration,
    },
}

/// The contents of a [`RateLimitDecision`], spans in nanoseconds.
pub enum DecisionView {
    Allow { previous_interval: Option<nat> },
    Deny { retry_after: nat },
}

impl View for RateLimitDecision {
    type V = DecisionView;

    open spec fn view(&self) -> DecisionView {
        match self {
            RateLimitDecision::Allow { previous_interval } => DecisionView::Allow {
                previous_interval: match previous_interval {
                    Some(d) => Some(d@),
                    None => None,
                },
            },
            RateLimitDecision::Deny { retry_after } => DecisionView::Deny {
                retry_after: retry_after@,
            },
        }
    }
}

/// What the limiter remembers of one AOR.
#[derive(Debug, Clone, Copy, PartialEq, Eq, Structural)]
pub struct AorState {
    /// Whether an INVITE was ever let through.
    pub let_through: bool,
    /// When an INVITE was last let through; where none ever was, when the first
    /// failure was reported.
    pub last_allowed_at: Instant,
    /// 5xx responses since the last success.
    pub failure_streak: u32,
    /// Clock reading, in nanoseconds, until which a received `Retry-After`
    /// forbids every INVITE.
    pub retry_after_until: Option<u128>,
}

/// Parameters of the limiter.
#[derive(Debug, Clone)]
pub struct RateLimiterConfig {
    /// Least time between two INVITEs.
    pub min_interval: Duration,
    /// Least time between two INVITEs after one, two, ... failures. The last
    /// step holds for every further failure.
    pub failure_backoff_steps: Vec<Duration>,
}

/// Per-AOR limiter of outgoing INVITEs. Its view is what it remembers of each
/// AOR.
#[derive(Debug)]
pub struct OutboundRateLimiter {
    state: Table<AorState>,
    config: RateLimiterConfig,
    clock: Clock,
}

/// The larger of two numbers.
pub open spec fn larger(a: nat, b: nat) -> nat {
    if a >= b {
        a
    } else {
        b
    }
}

/// The wait that `streak` failures in a row call for.
pub open spec fn backoff(steps: Seq<Duration>, streak: nat) -> nat {
    if streak == 0 || steps.len() == 0 {
        0
    } else if streak <= steps.len() {
        steps[streak - 1]@
    } else {
        steps.last()@
    }
}

/// The first clock reading at which an AOR in state `s` may send again.
pub open spec fn allowed_from(config: RateLimiterConfig, s: AorState) -> nat {
    larger(
        s.last_allowed_at@ + larger(
            config.min_interval@,
            backoff(config.failure_backoff_steps@, s.failure_streak as nat),
        ),
        match s.retry_after_until {
            Some(until) => until as nat,
            None => 0,
        },
    )
}

/// `n` nanoseconds in whole seconds, rounded up, at least one.
pub open spec fn whole_secs(n: nat) -> nat {
    if n == 0 {
        1
    } else if (n - 1) / NANOS_PER_SEC as int + 1 <= u64::MAX {
        ((n - 1) / NANOS_PER_SEC as int + 1) as nat
    } else {
        u64::MAX as nat
    }
}

/// Whether an INVITE of `aor` at `now` is held back.
pub open spec fn held_back(
    config: RateLimiterConfig,
    state: Map<Seq<char>, AorState>,
    aor: Seq<char>,
    now: Instant,
) -> bool {
    state.contains_key(aor) && now@ < allowed_from(config, state[aor])
}

/// The answer to an INVITE of `aor` at `now`.
pub open spec fn decision(
    config: RateLimiterConfig,
    state: Map<Seq<char>, AorState>,
    aor: Seq<char>,
    now: Instant,
) -> DecisionView {
    if held_back(config, state, aor, now) {
        DecisionView::Deny {
            retry_after: whole_secs((allowed_from(config, state[aor]) - now@) as nat)
                * NANOS_PER_SEC as nat,
        }
    } else if state.contains_key(aor) && state[aor].let_through {
        DecisionView::Allow {
            previous_interval: Some(
                if now@ >= state[aor].last_allowed_at@ {
                    (now@ - state[aor].last_allowed_at@) as nat
                } else {
                    0
                },
            ),
        }
    } else {
        DecisionView::Allow { previous_interval: None }
    }
}

/// What the limiter remembers after an INVITE of `aor` was asked for at `now`.
pub open spec fn after_check(
    config: RateLimiterConfig,
    state: Map<Seq<char>, AorState>,
    aor: Seq<char>,
    now: Instant,
) -> Map<Seq<char>, AorState> {
    if held_back(config, state, aor, now) {
        state
    } else if state.contains_key(aor) {
        state.insert(
            aor,
            AorState {
                let_through: true,
                last_allowed_at: now,
                failure_streak: state[aor].failure_streak,
                retry_after_until: match state[aor].retry_after_until {
                    Some(until) if until > now@ => Some(until),
                    _ => None,
                },
            },
        )
    } else {
        state.insert(
            aor,
            AorState {
                let_through: true,
                last_allowed_at: now,
                failure_streak: 0,
                retry_after_until: None,
            },
        )
    }
}

/// Whether `status` is a server failure (5xx).
pub open spec fn is_server_failure(status: u16) -> bool {
    500 <= status < 600
}

/// What the limiter remembers after an INVITE of `aor` was answered with
/// `status` at `now`.
pub open spec fn after_failure(
    state: Map<Seq<char>, AorState>,
    aor: Seq<char>,
    status: u16,
    retry_after_secs: Option<u32>,
    now: Instant,
) -> Map<Seq<char>, AorState> {
    let s = if state.contains_key(aor) {
        state[aor]
    } else {
        AorState {
            let_through: false,
            last_allowed_at: now,
            failure_streak: 0,
            retry_after_until: None,
        }
    };
    state.insert(
        aor,
        if is_server_failure(status) {
            AorState {
                let_through: s.let_through,
                last_allowed_at: s.last_allowed_at,
                failure_streak: if s.failure_streak < u32::MAX {
                    (s.failure_streak + 1) as u32
                } else {
                    u32::MAX
                },
                retry_after_until: match retry_after_secs {
                    Some(secs) => Some(
                        later(s.retry_after_until, (now@ + secs * NANOS_PER_SEC) as u128),
                    ),
                    None => s.retry_after_until,
                },
            }
        } else {
            s
        },
    )
}

/// The later of a reading that may be missing and another one.
pub open spec fn later(a: Option<u128>, b: u128) -> u128 {
    match a {
        Some(x) if x > b => x,
        _ => b,
    }
}

/// What the limiter remembers after an INVITE of `aor` succeeded.
pub open spec fn after_success(
    state: Map<Seq<char>, AorState>,
    aor: Seq<char>,
) -> Map<Seq<char>, AorState> {
    if state.contains_key(aor) {
        state.insert(
            aor,
            AorState {
                let_through: state[aor].let_through,
                last_allowed_at: state[aor].last_allowed_at,
                failure_streak: 0,
                retry_after_until: None,
            },
        )
    } else {
        state
    }
}

impl Default for RateLimiterConfig {
    /// Three seconds between INVITEs, then five, ten and thirty after failures.
    fn default() -> (r: Self)
        ensures
            r.min_interval@ == 3 * NANOS_PER_SEC,
            r.failure_backoff_steps@.map_values(|d: Duration| d@) == seq![
                (5 * NANOS_PER_SEC) as nat,
                (10 * NANOS_PER_SEC) as nat,
                (30 * NANOS_PER_SEC) as nat,
            ],
    {
        let mut steps: Vec<Duration> = Vec::new();
        steps.push(Duration::from_secs(5));
        steps.push(Duration::from_secs(10));
        steps.push(Duration::from_secs(30));
        assert(steps@.map_values(|d: Duration| d@) =~= seq![
            (5 * NANOS_PER_SEC) as nat,
            (10 * NANOS_PER_SEC) as nat,
            (30 * NANOS_PER_SEC) as nat,
        ]);
        RateLimiterConfig { min_interval: Duration::from_secs(3), failure_backoff_steps: steps }
    }
}

impl View for OutboundRateLimiter {
    type V = Map<Seq<char>, AorState>;

    closed spec fn view(&self) -> Map<Seq<char>, AorState> {
        self.state@
    }
}

impl Default for OutboundRateLimiter {
    /// See [`OutboundRateLimiter::new`].
    fn default() -> (r: Self)
        ensures
            r@ == Map::<Seq<char>, AorState>::empty(),
            r.parameters().min_interval@ == 3 * NANOS_PER_SEC,
            r.parameters().failure_backoff_steps@.map_values(|d: Duration| d@) == seq![
                (5 * NANOS_PER_SEC) as nat,
                (10 * NANOS_PER_SEC) as nat,
                (30 * NANOS_PER_SEC) as nat,
            ],
    {
        OutboundRateLimiter::new()
    }
}

impl OutboundRateLimiter {
    /// The parameters of the limiter.
    pub closed spec fn parameters(&self) -> RateLimiterConfig {
        self.config
    }

    /// The clock of the limiter.
    pub closed spec fn clock(&self) -> Clock {
        self.clock
    }

    /// A limiter with the default parameters that remembers nothing.
    pub fn new() -> (r: Self)
        ensures
            r@ == Map::<Seq<char>, AorState>::empty(),
            r.parameters().min_interval@ == 3 * NANOS_PER_SEC,
            r.parameters().failure_backoff_steps@.map_values(|d: Duration| d@) == seq![
                (5 * NANOS_PER_SEC) as nat,
                (10 * NANOS_PER_SEC) as nat,
                (30 * NANOS_PER_SEC) as nat,
            ],
    {
        OutboundRateLimiter::with_config(RateLimiterConfig::default())
    }

    /// A limiter with the given parameters that remembers nothing.
    pub fn with_config(config: RateLimiterConfig) -> (r: Self)
        ensures
            r@ == Map::<Seq<char>, AorState>::empty(),
            r.parameters() == config,
    {
        OutboundRateLimiter { state: Table::new(), config, clock: Clock::start() }
    }

    /// The parameters of the limiter.
    pub fn config(&self) -> (r: &RateLimiterConfig)
        ensures
            *r == self.parameters(),
    {
        &self.config
    }

    /// The time on the limiter's clock.
    pub fn now(&self) -> (r: Instant)
        ensures
            self.clock().shows(r),
    {
        self.clock.now()
    }

    /// Decides on an INVITE of `aor` by the time on the limiter's clock.
    ///
    /// That is a time that the clock shows; when the clock is read is not said. See
    /// [`OutboundRateLimiter::check_and_record_at`] for what each time gives.
    #[must_use]
    pub fn check_and_record(&mut self, aor: &str) -> (r: RateLimitDecision)
        ensures
            final(self).parameters() == old(self).parameters(),
            final(self).clock() == old(self).clock(),
            exists|now: Instant|
                {
                    &&& old(self).clock().shows(now)
                    &&& r@ == #[trigger] decision(old(self).parameters(), old(self)@, aor@, now)
                    &&& final(self)@ == after_check(old(self).parameters(), old(self)@, aor@, now)
                },
    {
        let now: Instant = self.clock.now();
        self.check_and_record_at(aor, now)
    }

    /// Decides on an INVITE of `aor` at `now`. An INVITE that is let through
    /// counts from `now` on, whether or not it is sent; one that is held back
    /// leaves no trace.
    pub fn check_and_record_at(&mut self, aor: &str, now: Instant) -> (r: RateLimitDecision)
        ensures
            final(self).parameters() == old(self).parameters(),
            final(self).clock() == old(self).clock(),
            r@ == decision(old(self).parameters(), old(self)@, aor@, now),
            final(self)@ == after_check(old(self).parameters(), old(self)@, aor@, now),
    {
        let t: u128 = now.as_nanos();
        let entry: Option<AorState> = match self.state.get(aor) {
            Some(s) => Some(*s),
            None => None,
        };
        match entry {
            None => {
                self.state.insert(
                    aor.to_owned(),
                    AorState {
                        let_through: true,
                        last_allowed_at: now,
                        failure_streak: 0,
                        retry_after_until: None,
                    },
                );
                RateLimitDecision::Allow { previous_interval: None }
            },
            Some(s) => {
                let from: u128 = self.allowed_from_nanos(&s);
                if t < from {
                    let remaining: Duration = Duration::saturating_from_nanos(from - t);
                    return RateLimitDecision::Deny { retry_after: round_up_secs(remaining) };
                }
                let retry_after_until: Option<u128> = match s.retry_after_until {
                    Some(until) => if until > t {
                        Some(until)
                    } else {
                        None
                    },
                    None => None,
                };
                let previous_interval: Option<Duration> = if s.let_through {
                    Some(now.saturating_duration_since(s.last_allowed_at))
                } else {
                    None
                };
                self.state.insert(
                    aor.to_owned(),
                    AorState {
                        let_through: true,
                        last_allowed_at: now,
                        failure_streak: s.failure_streak,
                        retry_after_until,
                    },
                );
                RateLimitDecision::Allow { previous_interval }
            },
        }
    }

    fn allowed_from_nanos(&self, s: &AorState) -> (r: u128)
        ensures
            r == allowed_from(self.config, *s),
    {
        let mut wait: u128 = self.config.min_interval.as_nanos();
        let n: usize = self.config.failure_backoff_steps.len();
        if s.failure_streak > 0 && n > 0 {
            let steps: &Vec<Duration> = &self.config.failure_backoff_steps;
            let step: Duration = if (s.failure_streak as u64) <= n as u64 {
                steps[(s.failure_streak - 1) as usize]
            } else {
                steps[n - 1]
            };
            let backed_off: u128 = step.as_nanos();
            if backed_off > wait {
                wait = backed_off;
            }
        }
        let interval_until: u128 = s.last_allowed_at.as_nanos() + wait;
        match s.retry_after_until {
            Some(until) => if until > interval_until {
                until
            } else {
                interval_until
            },
            None => interval_until,
        }
    }

    /// Reports that an INVITE of `aor` was answered with `status_code`, by the
    /// time on the limiter's clock.
    ///
    /// That is a time that the clock shows; when the clock is read is not said. See
    /// [`OutboundRateLimiter::record_failure_at`] for what each time gives.
    pub fn record_failure(&mut self, aor: &str, status_code: u16, retry_after_secs: Option<u32>)
        ensures
            final(self).parameters() == old(self).parameters(),
            final(self).clock() == old(self).clock(),
            exists|now: Instant|
                old(self).clock().shows(now) && final(self)@ == #[trigger] after_failure(
                    old(self)@,
                    aor@,
                    status_code,
                    retry_after_secs,
                    now,
                ),
    {
        let now: Instant = self.clock.now();
        self.record_failure_at(aor, status_code, retry_after_secs, now);
    }

    /// Reports that an INVITE of `aor` was answered with `status_code` at `now`.
    /// Only 5xx responses count, and only they may carry a `Retry-After` that
    /// forbids INVITEs; such a window is never made shorter.
    pub fn record_failure_at(
        &mut self,
        aor: &str,
        status_code: u16,
        retry_after_secs: Option<u32>,
        now: Instant,
    )
        ensures
            final(self).parameters() == old(self).parameters(),
            final(self).clock() == old(self).clock(),
            final(self)@ == after_failure(
                old(self)@,
                aor@,
                status_code,
                retry_after_secs,
                now,
            ),
    {
        let t: u128 = now.as_nanos();
        let mut s: AorState = match self.state.get(aor) {
            Some(s) => *s,
            None => AorState {
                let_through: false,
                last_allowed_at: now,
                failure_streak: 0,
                retry_after_until: None,
            },
        };
        if status_code >= 500 && status_code < 600 {
            s.failure_streak = s.failure_streak.saturating_add(1);
            if let Some(secs) = retry_after_secs {
                let until: u128 = t + secs as u128 * NANOS_PER_SEC;
                s.retry_after_until = match s.retry_after_until {
                    Some(previous) => if previous > until {
                        Some(previous)
                    } else {
                        Some(until)
                    },
                    None => Some(until),
                };
            }
        }
        self.state.insert(aor.to_owned(), s);
    }

    /// Reports that an INVITE of `aor` succeeded: earlier failures and a
    /// `Retry-After` of theirs are forgotten.
    pub fn record_success(&mut self, aor: &str)
        ensures
            final(self).parameters() == old(self).parameters(),
            final(self).clock() == old(self).clock(),
            final(self)@ == after_success(old(self)@, aor@),
    {
        let entry: Option<AorState> = match self.state.get(aor) {
            Some(s) => Some(*s),
            None => None,
        };
        if let Some(s) = entry {
            self.state.insert(
                aor.to_owned(),
                AorState {
                    let_through: s.let_through,
                    last_allowed_at: s.last_allowed_at,
                    failure_streak: 0,
                    retry_after_until: None,
                },
            );
        }
    }

    /// What the limiter remembers of `aor`: when an INVITE was last let through
    /// (when the first failure was reported, where none was), the failures since
    /// the last success, and the end of a `Retry-After` window.
    pub fn snapshot(&self, aor: &str) -> (r: Option<(Instant, u32, Option<u128>)>)
        ensures
            r == (if self@.contains_key(aor@) {
                Some(
                    (
                        self@[aor@].last_allowed_at,
                        self@[aor@].failure_streak,
                        self@[aor@].retry_after_until,
                    ),
                )
            } else {
                None
            }),
    {
        match self.state.get(aor) {
            Some(s) => Some((s.last_allowed_at, s.failure_streak, s.retry_after_until)),
            None => None,
        }
    }
}

/// `d` in whole seconds, rounded up, at least one.
pub fn round_up_secs(d: Duration) -> (r: Duration)
    ensures
        r@ == whole_secs(d@) * NANOS_PER_SEC,
{
    let mut secs: u64 = d.as_secs();
    if d.subsec_nanos() > 0 {
        secs = secs.saturating_add(1);
    }
    if secs == 0 {
        secs = 1;
    }
    Duration::from_secs(secs)
}

/// The delta-seconds at the front of a `Retry-After` value (RFC 3261 §20.33).
pub open spec fn retry_after_value(value: Seq<char>) -> Option<u32> {
    let digits = crate::text::leading_digits(crate::text::trim_start(value));
    if digits.len() > 0 && crate::text::digits_value(digits) <= u32::MAX {
        Some(crate::text::digits_value(digits) as u32)
    } else {
        None
    }
}

/// The delta-seconds at the front of a `Retry-After` value (RFC 3261 §20.33):
/// `5`, `5;duration=10` and `5 (cooldown)` all give 5. `None` where the value
/// does not begin with a number, or with one that does not fit in 32 bits.
pub fn parse_retry_after(value: &str) -> (r: Option<u32>)
    ensures
        r == retry_after_value(value@),
{
    let digits: &str = leading_digits_of(trim_start_of(value));
    if digits.is_empty() {
        return None;
    }
    parse_digits(digits)
}

/// One use of a limiter.
pub enum LimiterOp {
    Check { aor: Seq<char>, now: Instant },
    Failure { aor: Seq<char>, status: u16, retry_after_secs: Option<u32>, now: Instant },
    Success { aor: Seq<char> },
}

/// What the limiter remembers after one use.
pub open spec fn after_op(
    config: RateLimiterConfig,
    state: Map<Seq<char>, AorState>,
    op: LimiterOp,
) -> Map<Seq<char>, AorState> {
    match op {
        LimiterOp::Check { aor, now } => after_check(config, state, aor, now),
        LimiterOp::Failure { aor, status, retry_after_secs, now } => after_failure(
            state,
            aor,
            status,
            retry_after_secs,
            now,
        ),
        LimiterOp::Success { aor } => after_success(state, aor),
    }
}

/// What the limiter remembers after a run of uses.
pub open spec fn after_ops(
    config: RateLimiterConfig,
    state: Map<Seq<char>, AorState>,
    ops: Seq<LimiterOp>,
) -> Map<Seq<char>, AorState>
    decreases ops.len(),
{
    if ops.len() == 0 {
        state
    } else {
        after_op(config, after_ops(config, state, ops.drop_last()), ops.last())
    }
}

/// Whether the `i`-th use of a run is an INVITE of `aor` that is let through.
pub open spec fn lets_through(
    config: RateLimiterConfig,
    start: Map<Seq<char>, AorState>,
    ops: Seq<LimiterOp>,
    i: int,
    aor: Seq<char>,
) -> bool {
    match ops[i] {
        LimiterOp::Check { aor: a, now } => a == aor && !held_back(
            config,
            after_ops(config, start, ops.take(i)),
            aor,
            now,
        ),
        _ => false,
    }
}

proof fn lemma_last_allowed_grows(
    config: RateLimiterConfig,
    start: Map<Seq<char>, AorState>,
    ops: Seq<LimiterOp>,
    i: int,
    k: int,
    aor: Seq<char>,
)
    requires
        0 <= i < k <= ops.len(),
        lets_through(config, start, ops, i, aor),
    ensures
        after_ops(config, start, ops.take(k)).contains_key(aor),
        after_ops(config, start, ops.take(k))[aor].last_allowed_at@ >= ops[i]->Check_now@,
    decreases k,
{
    assert(ops.take(k).drop_last() =~= ops.take(k - 1));
    assert(ops.take(k).last() == ops[k - 1]);
    if k > i + 1 {
        lemma_last_allowed_grows(config, start, ops, i, k - 1, aor);
    }
}

/// Of two INVITEs of one AOR that are let through, the later one comes at least
/// `min_interval` after the earlier one, whatever happens in between.
pub proof fn law_invites_of_an_aor_are_spaced(
    config: RateLimiterConfig,
    start: Map<Seq<char>, AorState>,
    ops: Seq<LimiterOp>,
    i: int,
    j: int,
    aor: Seq<char>,
)
    requires
        0 <= i < j < ops.len(),
        lets_through(config, start, ops, i, aor),
        lets_through(config, start, ops, j, aor),
    ensures
        ops[j]->Check_now@ >= ops[i]->Check_now@ + config.min_interval@,
{
    lemma_last_allowed_grows(config, start, ops, i, j, aor);
}

/// On the limiter's clock, too: where the times of two INVITEs of one AOR that are let
/// through are times that `clock` shows, the clock has gone on by at least
/// `min_interval` from the moment of the earlier one to that of the later one.
pub proof fn law_invites_are_spaced_on_the_clock(
    clock: Clock,
    config: RateLimiterConfig,
    start: Map<Seq<char>, AorState>,
    ops: Seq<LimiterOp>,
    i: int,
    j: int,
    aor: Seq<char>,
)
    requires
        0 <= i < j < ops.len(),
        lets_through(config, start, ops, i, aor),
        lets_through(config, start, ops, j, aor),
        clock.shows(ops[i]->Check_now),
        clock.shows(ops[j]->Check_now),
    ensures
        exists|first: std::time::Instant, second: std::time::Instant|
            {
                let t1 = #[trigger] nanos_between(first, clock.origin());
                let t2 = #[trigger] nanos_between(second, clock.origin());
                t1 == ops[i]->Check_now@ && t2 == ops[j]->Check_now@ && t2 >= t1
                    + config.min_interval@
            },
{
    law_invites_of_an_aor_are_spaced(config, start, ops, i, j, aor);
}

proof fn lemma_let_through_is_remembered(
    config: RateLimiterConfig,
    ops: Seq<LimiterOp>,
    k: int,
    aor: Seq<char>,
)
    requires
        0 <= k <= ops.len(),
    ensures
        ({
            let s = after_ops(config, Map::empty(), ops.take(k));
            &&& (s.contains_key(aor) && s[aor].let_through) <==> exists|i: int|
                0 <= i < k && lets_through(config, Map::empty(), ops, i, aor)
            &&& forall|i: int|
                is_last_let_through(config, ops, i, k, aor) ==> s[aor].last_allowed_at
                    == ops[i]->Check_now
        }),
    decreases k,
{
    let empty = Map::<Seq<char>, AorState>::empty();
    let s = after_ops(config, empty, ops.take(k));
    if k > 0 {
        lemma_let_through_is_remembered(config, ops, k - 1, aor);
        assert(ops.take(k).drop_last() =~= ops.take(k - 1));
        assert(ops.take(k).last() == ops[k - 1]);
        let before = after_ops(config, empty, ops.take(k - 1));
        if lets_through(config, empty, ops, k - 1, aor) {
            assert(s.contains_key(aor) && s[aor].let_through);
        } else {
            assert((s.contains_key(aor) && s[aor].let_through) <==> (before.contains_key(aor)
                && before[aor].let_through));
        }
        assert forall|i: int| is_last_let_through(config, ops, i, k, aor) implies
            s[aor].last_allowed_at == ops[i]->Check_now by {
            if i < k - 1 {
                assert(is_last_let_through(config, ops, i, k - 1, aor));
                assert(!lets_through(config, empty, ops, k - 1, aor));
                assert(before.contains_key(aor) && before[aor].let_through);
            }
        }
    }
}

/// Whether, of a fresh limiter's first `k` uses, the `i`-th is the last INVITE of `aor`
/// that is let through.
pub open spec fn is_last_let_through(
    config: RateLimiterConfig,
    ops: Seq<LimiterOp>,
    i: int,
    k: int,
    aor: Seq<char>,
) -> bool {
    &&& 0 <= i < k
    &&& lets_through(config, Map::empty(), ops, i, aor)
    &&& forall|j: int| i < j < k ==> !lets_through(config, Map::empty(), ops, j, aor)
}

/// The interval that comes with a permission is the time since the last permission of
/// the same AOR, and there is none with its first, whatever failures were reported
/// before.
pub proof fn law_interval_is_since_the_last_permission(
    config: RateLimiterConfig,
    ops: Seq<LimiterOp>,
    aor: Seq<char>,
    now: Instant,
)
    requires
        !held_back(config, after_ops(config, Map::empty(), ops), aor, now),
    ensures
        ({
            let d = decision(config, after_ops(config, Map::empty(), ops), aor, now);
            &&& d is Allow
            &&& d->previous_interval is Some <==> exists|i: int|
                0 <= i < ops.len() && lets_through(config, Map::empty(), ops, i, aor)
            &&& forall|i: int| #[trigger]
                is_last_let_through(config, ops, i, ops.len() as int, aor)
                    ==> d->previous_interval == Some((now@ - ops[i]->Check_now@) as nat)
        }),
{
    let n = ops.len() as int;
    let state = after_ops(config, Map::empty(), ops);
    assert(ops.take(n) =~= ops);
    lemma_let_through_is_remembered(config, ops, n, aor);
    assert forall|i: int| is_last_let_through(config, ops, i, n, aor) implies decision(
        config,
        state,
        aor,
        now,
    )->previous_interval == Some((now@ - ops[i]->Check_now@) as nat) by {
        assert(state.contains_key(aor) && state[aor].let_through);
    }
}

/// What happens to one AOR says nothing about another.
pub proof fn law_aors_are_independent(
    config: RateLimiterConfig,
    state: Map<Seq<char>, AorState>,
    op: LimiterOp,
    other: Seq<char>,
    now: Instant,
)
    requires
        match op {
            LimiterOp::Check { aor, .. } => aor != other,
            LimiterOp::Failure { aor, .. } => aor != other,
            LimiterOp::Success { aor } => aor != other,
        },
    ensures
        decision(config, after_op(config, state, op), other, now) == decision(
            config,
            state,
            other,
            now,
        ),
        after_op(config, state, op).contains_key(other) == state.contains_key(other),
        state.contains_key(other) ==> after_op(config, state, op)[other] == state[other],
{
}

/// The first INVITE of an AOR that nothing is remembered of is let through.
pub proof fn law_first_invite_is_allowed(
    config: RateLimiterConfig,
    state: Map<Seq<char>, AorState>,
    aor: Seq<char>,
    now: Instant,
)
    requires
        !state.contains_key(aor),
    ensures
        decision(config, state, aor, now) == (DecisionView::Allow { previous_interval: None }),
{
}

/// A refusal never asks for less than a second's wait, and leaves no trace.
pub proof fn law_refusal_asks_for_a_wait(
    config: RateLimiterConfig,
    state: Map<Seq<char>, AorState>,
    aor: Seq<char>,
    now: Instant,
)
    requires
        held_back(config, state, aor, now),
    ensures
        decision(config, state, aor, now) is Deny,
        decision(config, state, aor, now)->retry_after >= NANOS_PER_SEC,
        decision(config, state, aor, now)->retry_after % NANOS_PER_SEC as nat == 0,
        after_check(config, state, aor, now) == state,
{
    let secs = whole_secs((allowed_from(config, state[aor]) - now@) as nat);
    assert(secs >= 1);
    assert((secs * NANOS_PER_SEC) % NANOS_PER_SEC as int == 0) by (nonlinear_arith);
}

/// Who waits out the `Retry-After` of a refusal is let through. Left out are waits of
/// more seconds than a span can hold.
pub proof fn law_waiting_out_a_refusal_suffices(
    config: RateLimiterConfig,
    state: Map<Seq<char>, AorState>,
    aor: Seq<char>,
    now: Instant,
    later: Instant,
)
    requires
        held_back(config, state, aor, now),
        allowed_from(config, state[aor]) - now@ <= u64::MAX * NANOS_PER_SEC,
        later@ >= now@ + decision(config, state, aor, now)->retry_after,
    ensures
        !held_back(config, after_check(config, state, aor, now), aor, later),
{
}

/// The `Retry-After` of a refusal is the least whole number of seconds that is enough:
/// an INVITE after `secs` seconds is let through exactly where they are at least as
/// many. Left out are waits of more seconds than a span can hold.
pub proof fn law_refusal_asks_for_the_least_wait(
    config: RateLimiterConfig,
    state: Map<Seq<char>, AorState>,
    aor: Seq<char>,
    now: Instant,
    secs: nat,
    later: Instant,
)
    requires
        held_back(config, state, aor, now),
        allowed_from(config, state[aor]) - now@ <= u64::MAX * NANOS_PER_SEC,
        later@ == now@ + secs * NANOS_PER_SEC,
    ensures
        !held_back(config, after_check(config, state, aor, now), aor, later) <==> secs
            * NANOS_PER_SEC >= decision(config, state, aor, now)->retry_after,
{
    let wait = allowed_from(config, state[aor]) - now@;
    let least = whole_secs(wait as nat);
    assert(least * NANOS_PER_SEC >= wait > (least - 1) * NANOS_PER_SEC);
    if secs >= least {
        assert(secs * NANOS_PER_SEC >= least * NANOS_PER_SEC) by (nonlinear_arith)
            requires
                secs >= least,
        ;
    } else {
        assert(secs * NANOS_PER_SEC <= (least - 1) * NANOS_PER_SEC) by (nonlinear_arith)
            requires
                secs <= least - 1,
        ;
    }
}

/// Before the end of the `Retry-After` of a 5xx response every INVITE is held
/// back.
pub proof fn law_retry_after_holds_back(
    config: RateLimiterConfig,
    state: Map<Seq<char>, AorState>,
    aor: Seq<char>,
    status: u16,
    secs: u32,
    at: Instant,
    now: Instant,
)
    requires
        is_server_failure(status),
        at@ <= crate::time::MAX_NANOS,
        now@ < at@ + secs * NANOS_PER_SEC,
    ensures
        held_back(config, after_failure(state, aor, status, Some(secs), at), aor, now),
{
}

/// A `Retry-After` window is not made shorter by a further failure, nor by an
/// INVITE that is asked for while it lasts.
pub proof fn law_retry_after_is_not_shortened(
    config: RateLimiterConfig,
    state: Map<Seq<char>, AorState>,
    aor: Seq<char>,
    status: u16,
    retry_after_secs: Option<u32>,
    now: Instant,
)
    requires
        state.contains_key(aor),
        state[aor].retry_after_until is Some,
    ensures
        ({
            let after = after_failure(state, aor, status, retry_after_secs, now)[aor];
            after.retry_after_until is Some && after.retry_after_until->0
                >= state[aor].retry_after_until->0
        }),
        now@ < state[aor].retry_after_until->0 ==> after_check(config, state, aor, now)[aor]
            == state[aor],
{
}

/// A success leaves nothing but `min_interval` to wait for.
pub proof fn law_success_ends_the_backoff(
    config: RateLimiterConfig,
    state: Map<Seq<char>, AorState>,
    aor: Seq<char>,
)
    requires
        state.contains_key(aor),
    ensures
        allowed_from(config, after_success(state, aor)[aor]) == state[aor].last_allowed_at@
            + config.min_interval@,
{
}

/// A response that is no 5xx changes nothing for an AOR that is known.
pub proof fn law_only_server_failures_count(
    state: Map<Seq<char>, AorState>,
    aor: Seq<char>,
    status: u16,
    retry_after_secs: Option<u32>,
    now: Instant,
)
    requires
        state.contains_key(aor),
        !is_server_failure(status),
    ensures
        after_failure(state, aor, status, retry_after_secs, now) == state,
{
    assert(after_failure(state, aor, status, retry_after_secs, now) =~= state);
}

/// A number written as a `Retry-After` value is read back.
pub proof fn law_retry_after_is_read_back(n: u32)
    ensures
        retry_after_value(crate::text::decimal(n as nat)) == Some(n),
{
    let s = crate::text::decimal(n as nat);
    crate::text::lemma_decimal(n as nat);
    crate::text::lemma_leading_digits_all(s);
    assert(crate::text::is_digit(s[0]));
    assert(crate::text::trim_start(s) == s);
}

/// When an INVITE is held back: before the least time since the last permission is over,
/// before the step for the failures in a row is over (the last step where there are more
/// failures than steps), or before the time that a server asked for. At no other time,
/// and never where nothing is remembered.
pub proof fn law_invite_is_held_back_for_three_reasons(
    config: RateLimiterConfig,
    state: Map<Seq<char>, AorState>,
    aor: Seq<char>,
    now: Instant,
)
    ensures
        !state.contains_key(aor) ==> !held_back(config, state, aor, now),
        state.contains_key(aor) ==> {
            let s = state[aor];
            let steps = config.failure_backoff_steps@;
            let n = s.failure_streak as int;
            held_back(config, state, aor, now) <==> {
                ||| now@ < s.last_allowed_at@ + config.min_interval@
                ||| 0 < n <= steps.len() && now@ < s.last_allowed_at@ + steps[n - 1]@
                ||| 0 < steps.len() < n && now@ < s.last_allowed_at@ + steps[steps.len() - 1]@
                ||| s.retry_after_until is Some && now@ < s.retry_after_until->0
            }
        },
        held_back(config, state, aor, now) <==> decision(config, state, aor, now) is Deny,
{
}

/// What a permission changes: the last permission is now. The failures in a row stay, a
/// time that a server asked for is over, and no other AOR is touched.
pub proof fn law_permission_is_remembered(
    config: RateLimiterConfig,
    state: Map<Seq<char>, AorState>,
    aor: Seq<char>,
    now: Instant,
)
    requires
        !held_back(config, state, aor, now),
    ensures
        ({
            let after = after_check(config, state, aor, now);
            &&& after.contains_key(aor)
            &&& after[aor].let_through
            &&& after[aor].last_allowed_at == now
            &&& after[aor].retry_after_until is None
            &&& state.contains_key(aor) ==> after[aor].failure_streak == state[aor].failure_streak
            &&& !state.contains_key(aor) ==> after[aor].failure_streak == 0
        }),
{
}

/// What a server failure (5xx) changes: there is one failure more in a row, as far as 32
/// bits go, and where the server asked for a wait the time until which it lasts is the
/// later of what was known and what was asked for. The last permission stays; for an AOR
/// that nothing is remembered of, the time of the failure stands in for it.
pub proof fn law_server_failure_is_remembered(
    state: Map<Seq<char>, AorState>,
    aor: Seq<char>,
    status: u16,
    retry_after_secs: Option<u32>,
    now: Instant,
)
    requires
        now@ <= crate::time::MAX_NANOS,
    ensures
        is_server_failure(status) <==> status / 100 == 5,
        ({
            let after = after_failure(state, aor, status, retry_after_secs, now);
            let failed = status / 100 == 5;
            &&& after.contains_key(aor)
            &&& state.contains_key(aor) ==> {
                let s = state[aor];
                &&& after[aor].let_through == s.let_through
                &&& after[aor].last_allowed_at == s.last_allowed_at
                &&& !failed ==> after[aor].failure_streak == s.failure_streak
                    && after[aor].retry_after_until == s.retry_after_until
                &&& failed && s.failure_streak < u32::MAX ==> after[aor].failure_streak
                    == s.failure_streak + 1
                &&& failed && s.failure_streak == u32::MAX ==> after[aor].failure_streak
                    == u32::MAX
                &&& failed && retry_after_secs is None ==> after[aor].retry_after_until
                    == s.retry_after_until
                &&& failed && retry_after_secs is Some ==> {
                    let asked = now@ + retry_after_secs->0 * NANOS_PER_SEC;
                    let until = after[aor].retry_after_until;
                    &&& until is Some
                    &&& until->0 >= asked
                    &&& s.retry_after_until is Some ==> until->0 >= s.retry_after_until->0
                    &&& until->0 == asked || until == s.retry_after_until
                }
            }
            &&& !state.contains_key(aor) ==> {
                &&& !after[aor].let_through
                &&& after[aor].last_allowed_at == now
                &&& after[aor].failure_streak == (if failed {
                    1int
                } else {
                    0
                })
                &&& after[aor].retry_after_until is Some <==> failed && retry_after_secs is Some
                &&& failed && retry_after_secs is Some ==> after[aor].retry_after_until->0 == now@
                    + retry_after_secs->0 * NANOS_PER_SEC
            }
        }),
{
}

/// What a success changes: no failures in a row, and no time that a server asked for. The
/// last permission stays, and nothing comes to be remembered by it.
pub proof fn law_success_is_remembered(state: Map<Seq<char>, AorState>, aor: Seq<char>)
    ensures
        !state.contains_key(aor) ==> after_success(state, aor) == state,
        state.contains_key(aor) ==> {
            let after = after_success(state, aor);
            &&& after.contains_key(aor)
            &&& after[aor].failure_streak == 0
            &&& after[aor].retry_after_until is None
            &&& after[aor].last_allowed_at == state[aor].last_allowed_at
            &&& after[aor].let_through == state[aor].let_through
        },
{
}

/// A `Retry-After` value is the number at its front: white space before it and anything
/// behind it but a digit are of no account. There is none where no digit is at the front.
pub proof fn law_retry_after_is_the_number_at_the_front(
    blank: Seq<char>,
    n: u32,
    behind: Seq<char>,
)
    requires
        forall|i: int|
            0 <= i < blank.len() ==> crate::text::is_white_space(#[trigger] blank[i]),
        behind.len() > 0 ==> !crate::text::is_digit(behind.first()),
    ensures
        retry_after_value(blank + crate::text::decimal(n as nat) + behind) == Some(n),
        behind.len() > 0 && !crate::text::is_white_space(behind.first()) ==> retry_after_value(
            blank + behind,
        ) is None,
        retry_after_value(blank) is None,
{
    let s = crate::text::decimal(n as nat);
    crate::text::lemma_decimal(n as nat);
    assert(crate::text::is_digit(s[0]));
    crate::text::law_trim_start_takes_white_space_off(blank, s + behind);
    assert(blank + (s + behind) =~= blank + s + behind);
    assert((s + behind).first() == s[0]);
    crate::text::law_leading_digits_stop_at_the_first_other(s, behind);
    let none = Seq::<char>::empty();
    crate::text::law_trim_start_takes_white_space_off(blank, none);
    assert(blank + none =~= blank);
    crate::text::law_leading_digits_stop_at_the_first_other(none, none);
    assert(none + none =~= none);
    if behind.len() > 0 && !crate::text::is_white_space(behind.first()) {
        crate::text::law_trim_start_takes_white_space_off(blank, behind);
        crate::text::law_leading_digits_stop_at_the_first_other(none, behind);
        assert(none + behind =~= behind);
    }
}

/// A `Retry-After` number that does not fit 32 bits is none.
pub proof fn law_retry_after_fits_its_number(n: nat)
    ensures
        retry_after_value(crate::text::decimal(n)) is Some <==> n <= u32::MAX,
{
    let s = crate::text::decimal(n);
    crate::text::lemma_decimal(n);
    crate::text::lemma_leading_digits_all(s);
    assert(crate::text::is_digit(s[0]));
    assert(crate::text::trim_start(s) == s);
}

/// A wait is asked for in whole seconds: at least one, no fewer than it takes, and no more
/// than it takes beyond the first, as far as 64 bits go.
pub proof fn law_wait_is_rounded_up_to_seconds(n: nat)
    ensures
        1 <= whole_secs(n) <= u64::MAX,
        whole_secs(0) == 1,
        whole_secs(n) < u64::MAX ==> n <= whole_secs(n) * NANOS_PER_SEC,
        whole_secs(n) > 1 ==> (whole_secs(n) - 1) * NANOS_PER_SEC < n,
{
}

/// Of two waits the longer one counts, and of two times the later one.
pub proof fn law_longer_wait_counts(a: nat, b: nat, x: u128, y: u128)
    ensures
        larger(a, b) >= a,
        larger(a, b) >= b,
        larger(a, b) == a || larger(a, b) == b,
        later(None, y) == y,
        later(Some(x), y) >= x,
        later(Some(x), y) >= y,
        later(Some(x), y) == x || later(Some(x), y) == y,
{
}

/// A run of digits at the front of a `Retry-After` value is read as the number that it
/// writes, leading zeros or not, where that fits 32 bits, and not at all where it does
/// not.
pub proof fn law_retry_after_reads_any_run_of_digits(
    blank: Seq<char>,
    digits: Seq<char>,
    behind: Seq<char>,
)
    requires
        forall|i: int|
            0 <= i < blank.len() ==> crate::text::is_white_space(#[trigger] blank[i]),
        digits.len() > 0,
        forall|i: int| 0 <= i < digits.len() ==> crate::text::is_digit(#[trigger] digits[i]),
        behind.len() > 0 ==> !crate::text::is_digit(behind.first()),
    ensures
        ({
            let n = crate::text::digits_value(digits);
            let value = blank + digits + behind;
            &&& n <= u32::MAX ==> retry_after_value(value) == Some(n as u32)
            &&& n > u32::MAX ==> retry_after_value(value) is None
        }),
{
    assert(crate::text::is_digit(digits[0]));
    crate::text::law_trim_start_takes_white_space_off(blank, digits + behind);
    assert(blank + (digits + behind) =~= blank + digits + behind);
    assert((digits + behind).first() == digits[0]);
    crate::text::law_leading_digits_stop_at_the_first_other(digits, behind);
}

} // verus!
