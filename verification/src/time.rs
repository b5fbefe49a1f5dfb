//! Spans of time and readings of a monotonic clock, in whole nanoseconds.

use vstd::prelude::*;

verus! {

/// Nanoseconds in a second.
pub const NANOS_PER_SEC: u128 = 1_000_000_000;

/// The longest span, in nanoseconds.
pub const MAX_NANOS: u128 = 18_446_744_073_709_551_615_999_999_999;

/// A span of time. Its view is its length in nanoseconds.
#[derive(Clone, Copy, Debug, PartialEq, Eq, PartialOrd, Ord, Hash, Structural)]
pub struct Duration {
    secs: u64,
    nanos: u32,
}

impl View for Duration {
    type V = nat;

    closed spec fn view(&self) -> nat {
        (self.secs * NANOS_PER_SEC + self.nanos) as nat
    }
}

impl Duration {
    #[verifier::type_invariant]
    spec fn well_formed(self) -> bool {
        self.nanos < NANOS_PER_SEC
    }

    /// A span of `secs` seconds.
    pub fn from_secs(secs: u64) -> (r: Self)
        ensures
            r@ == secs * NANOS_PER_SEC,
    {
        Duration { secs, nanos: 0 }
    }

    /// A span of `millis` milliseconds.
    pub fn from_millis(millis: u64) -> (r: Self)
        ensures
            r@ == millis * 1_000_000,
    {
        Duration { secs: millis / 1000, nanos: ((millis % 1000) * 1_000_000) as u32 }
    }

    /// A span of `nanos` nanoseconds, or the longest span where that is less.
    pub fn saturating_from_nanos(nanos: u128) -> (r: Self)
        ensures
            r@ == (if nanos <= MAX_NANOS {
                nanos
            } else {
                MAX_NANOS
            }),
    {
        if nanos > MAX_NANOS {
            return Duration { secs: u64::MAX, nanos: 999_999_999 };
        }
        let secs: u128 = nanos / NANOS_PER_SEC;
        let rest: u128 = nanos % NANOS_PER_SEC;
        Duration { secs: secs as u64, nanos: rest as u32 }
    }

    /// The whole seconds in the span.
    pub fn as_secs(&self) -> (r: u64)
        ensures
            r == self@ / NANOS_PER_SEC as nat,
    {
        proof {
            use_type_invariant(self);
        }
        self.secs
    }

    /// The nanoseconds beyond the whole seconds.
    pub fn subsec_nanos(&self) -> (r: u32)
        ensures
            r == self@ % NANOS_PER_SEC as nat,
    {
        proof {
            use_type_invariant(self);
        }
        self.nanos
    }

    /// The whole milliseconds in the span.
    pub fn as_millis(&self) -> (r: u128)
        ensures
            r == self@ / 1_000_000,
    {
        proof {
            use_type_invariant(self);
        }
        self.secs as u128 * 1000 + (self.nanos / 1_000_000) as u128
    }

    /// The length of the span in nanoseconds.
    pub fn as_nanos(&self) -> (r: u128)
        ensures
            r == self@,
            r <= MAX_NANOS,
    {
        proof {
            use_type_invariant(self);
        }
        self.secs as u128 * NANOS_PER_SEC + self.nanos as u128
    }
}

/// A reading of a monotonic clock. Its view is the number of nanoseconds since
/// the clock started.
#[derive(Clone, Copy, Debug, PartialEq, Eq, PartialOrd, Ord, Hash, Structural)]
pub struct Instant {
    since_start: Duration,
}

impl View for Instant {
    type V = nat;

    closed spec fn view(&self) -> nat {
        self.since_start@
    }
}

impl Instant {
    /// The reading `since_start` after the clock started.
    pub fn after_start(since_start: Duration) -> (r: Self)
        ensures
            r@ == since_start@,
    {
        Instant { since_start }
    }

    /// Nanoseconds since the clock started.
    pub fn as_nanos(&self) -> (r: u128)
        ensures
            r == self@,
            r <= MAX_NANOS,
    {
        self.since_start.as_nanos()
    }

    /// The reading `d` after this one.
    pub fn plus(&self, d: Duration) -> (r: Self)
        requires
            self@ + d@ <= MAX_NANOS,
        ensures
            r@ == self@ + d@,
    {
        let sum: u128 = self.as_nanos() + d.as_nanos();
        Instant { since_start: Duration::saturating_from_nanos(sum) }
    }

    /// The time from `earlier` to this reading, none where `earlier` is later.
    pub fn saturating_duration_since(&self, earlier: Instant) -> (r: Duration)
        ensures
            r@ == (if self@ >= earlier@ {
                self@ - earlier@
            } else {
                0
            }),
    {
        let a: u128 = self.as_nanos();
        let b: u128 = earlier.as_nanos();
        if a >= b {
            Duration::saturating_from_nanos(a - b)
        } else {
            Duration::from_secs(0)
        }
    }
}

#[verifier::external_type_specification]
#[verifier::external_body]
pub struct ExStdInstant(std::time::Instant);

/// Calls `std::time::Instant::now`. Nothing is stated of the reading.
#[verifier::external_body]
fn read_std_clock() -> (r: std::time::Instant) {
    std::time::Instant::now()
}

/// The nanoseconds from one reading of the standard library's monotonic clock to
/// another, none where the first is the later one: what
/// `std::time::Instant::saturating_duration_since` gives.
pub uninterp spec fn nanos_between(later: std::time::Instant, earlier: std::time::Instant) -> nat;

/// Calls `std::time::Instant::saturating_duration_since` and hands the span out as
/// its whole seconds and the nanoseconds beyond them, of which there are fewer than
/// a second's worth. The span depends on the two readings alone; how long it is, is
/// not said, since a reading has no contents here.
#[verifier::external_body]
fn span_between(later: &std::time::Instant, earlier: &std::time::Instant) -> (r: (u64, u32))
    ensures
        r.0 * NANOS_PER_SEC + r.1 == nanos_between(*later, *earlier),
        r.1 < 1_000_000_000,
{
    let d = later.saturating_duration_since(*earlier);
    (d.as_secs(), d.subsec_nanos())
}

#[verifier::external_type_specification]
#[verifier::external_body]
pub struct ExStdSystemTime(std::time::SystemTime);

/// Calls `std::time::SystemTime::now`. Nothing is stated of the reading.
#[verifier::external_body]
fn read_system_clock() -> (r: std::time::SystemTime) {
    std::time::SystemTime::now()
}

/// The nanoseconds from the Unix epoch to a reading of the system's clock, `None`
/// where the reading is earlier: what `std::time::SystemTime::duration_since` gives
/// for the epoch.
pub uninterp spec fn epoch_nanos(at: std::time::SystemTime) -> Option<nat>;

/// Calls `std::time::SystemTime::duration_since` with the Unix epoch and hands the
/// span out as its whole seconds and the nanoseconds beyond them, of which there are
/// fewer than a second's worth; `None` where the reading is earlier. The span depends
/// on the reading alone; how long it is, is not said, since a reading has no contents
/// here.
#[verifier::external_body]
fn span_since_epoch(at: &std::time::SystemTime) -> (r: Option<(u64, u32)>)
    ensures
        match r {
            Some((secs, nanos)) => {
                &&& nanos < 1_000_000_000
                &&& epoch_nanos(*at) == Some((secs * NANOS_PER_SEC + nanos) as nat)
            },
            None => epoch_nanos(*at) is None,
        },
{
    match at.duration_since(std::time::UNIX_EPOCH) {
        Ok(d) => Some((d.as_secs(), d.subsec_nanos())),
        Err(_) => None,
    }
}

/// The whole milliseconds from the Unix epoch to a reading of the system's clock, zero
/// where the reading is earlier.
pub open spec fn millis_at(at: std::time::SystemTime) -> nat {
    match epoch_nanos(at) {
        Some(nanos) => nanos / 1_000_000,
        None => 0,
    }
}

/// Milliseconds since the Unix epoch at the reading `at` of the system's clock, zero
/// where that is earlier.
pub fn unix_millis_at(at: &std::time::SystemTime) -> (r: u128)
    ensures
        r == millis_at(*at),
{
    match span_since_epoch(at) {
        Some((secs, nanos)) => secs as u128 * 1000 + (nanos / 1_000_000) as u128,
        None => 0,
    }
}

/// Milliseconds since the Unix epoch by the system's clock, zero where that is set
/// to an earlier time. When the clock is read is not said.
pub fn unix_millis() -> (r: u128)
    ensures
        exists|at: std::time::SystemTime| r == #[trigger] millis_at(at),
{
    unix_millis_at(&read_system_clock())
}

/// A monotonic clock that counts from when it was started.
#[derive(Debug)]
pub struct Clock {
    origin: std::time::Instant,
}

impl Clock {
    /// When the clock was started.
    pub closed spec fn origin(&self) -> std::time::Instant {
        self.origin
    }

    /// Whether `t` is the time on the clock at some moment.
    pub open spec fn shows(&self, t: Instant) -> bool {
        exists|at: std::time::Instant| t@ == #[trigger] nanos_between(at, self.origin())
    }

    /// A clock that starts now. When that is, is not said.
    pub fn start() -> (r: Self) {
        Clock { origin: read_std_clock() }
    }

    /// The time on the clock at the moment `at`, which is how long after the start
    /// that is.
    pub fn time_at(&self, at: &std::time::Instant) -> (r: Instant)
        ensures
            r@ == nanos_between(*at, self.origin()),
    {
        let parts: (u64, u32) = span_between(at, &self.origin);
        Instant { since_start: Duration { secs: parts.0, nanos: parts.1 } }
    }

    /// The time on the clock. When it is read is not said: see [`Clock::time_at`] for
    /// what each moment gives.
    pub fn now(&self) -> (r: Instant)
        ensures
            self.shows(r),
    {
        self.time_at(&read_std_clock())
    }
}

/// The milliseconds since the epoch are the greatest number of them that fits into the
/// time since then, and none before it. A second has a thousand million nanoseconds.
pub proof fn law_milliseconds_are_whole(at: std::time::SystemTime)
    ensures
        epoch_nanos(at) is None ==> millis_at(at) == 0,
        epoch_nanos(at) is Some ==> millis_at(at) * 1_000_000 <= epoch_nanos(at)->0 < (millis_at(
            at,
        ) + 1) * 1_000_000,
        NANOS_PER_SEC == 1000 * 1_000_000,
{
}

} // verus!
