//! Spans of time and the two clocks.
//!
//! Logic never reads a clock in the middle of a decision: each operation reads
//! it once and hands the reading to a function that decides from plain values.

use vstd::prelude::*;

verus! {

/// A length of time, in nanoseconds.
#[derive(Debug, Clone, Copy, PartialEq, Eq, Structural)]
pub struct Span {
    /// The length in nanoseconds.
    pub nanos: u128,
}

impl Span {
    /// A span of whole seconds.
    pub fn from_secs(secs: u64) -> (r: Span)
        ensures
            r.nanos == secs * 1_000_000_000,
    {
        Span { nanos: secs as u128 * 1_000_000_000u128 }
    }

    /// A span of whole milliseconds.
    pub fn from_millis(millis: u64) -> (r: Span)
        ensures
            r.nanos == millis * 1_000_000,
    {
        Span { nanos: millis as u128 * 1_000_000u128 }
    }

    /// The whole seconds in this span; those beyond `u64::MAX` are dropped.
    pub open spec fn secs(self) -> u64 {
        let secs = self.nanos / 1_000_000_000;
        if secs <= u64::MAX {
            secs as u64
        } else {
            u64::MAX
        }
    }

    /// The whole seconds in this span.
    pub fn as_secs(self) -> (r: u64)
        ensures
            r == self.secs(),
    {
        let secs: u128 = self.nanos / 1_000_000_000u128;
        if secs <= u64::MAX as u128 {
            secs as u64
        } else {
            u64::MAX
        }
    }
}

/// How long ago `since` was at `now`; a reading from the future is no time ago.
pub open spec fn elapsed(since: u128, now: u128) -> int {
    if now >= since {
        now - since
    } else {
        0
    }
}

/// Whether less than `span` has passed from `since` to `now`.
pub open spec fn within(since: u128, now: u128, span: Span) -> bool {
    elapsed(since, now) < span.nanos
}

/// Whether less than `span` has passed from `since` to `now`.
pub fn is_within(since: u128, now: u128, span: Span) -> (r: bool)
    ensures
        r == within(since, now, span),
{
    let passed: u128 = if now >= since {
        now - since
    } else {
        0
    };
    passed < span.nanos
}

/// An instant of the monotonic clock. Opaque: only the time passed since one
/// is ever looked at.
#[verifier::external_type_specification]
#[verifier::external_body]
pub struct ExInstant(std::time::Instant);

/// Calls `Instant::now`. Nothing is claimed of the instant it returns.
#[verifier::external_body]
fn instant_now() -> (r: std::time::Instant) {
    std::time::Instant::now()
}

/// Calls `Instant::elapsed`, in nanoseconds. Nothing is claimed of how much
/// time has passed.
#[verifier::external_body]
fn nanos_since(origin: &std::time::Instant) -> (r: u128) {
    origin.elapsed().as_nanos()
}

/// Calls `SystemTime::elapsed` on the Unix epoch, in nanoseconds; `None` while
/// the clock is set before the epoch. Nothing is claimed of the reading.
#[verifier::external_body]
fn nanos_since_epoch() -> (r: Option<u128>) {
    std::time::UNIX_EPOCH.elapsed().ok().map(|passed| passed.as_nanos())
}

/// Whether the wall clock was seen to read this: a call of it gave this reading.
pub closed spec fn is_wall_reading(reading: Option<u128>) -> bool {
    call_ensures(nanos_since_epoch, (), reading)
}

/// Asks a source for a value, and keeps that the value came from it.
pub(crate) fn asked<T, S: Fn() -> T>(source: S) -> (r: T)
    requires
        call_requires(source, ()),
    ensures
        call_ensures(source, (), r),
{
    source()
}

/// Asks a source about something, and keeps that the answer came from it.
pub(crate) fn asked_about<A, T, S: Fn(A) -> T>(source: S, about: A) -> (r: T)
    requires
        call_requires(source, (about,)),
    ensures
        call_ensures(source, (about,), r),
{
    source(about)
}

/// A monotonic clock that counts nanoseconds from the moment it was started.
pub struct Stopwatch {
    origin: std::time::Instant,
}

impl Stopwatch {
    /// Starts counting.
    pub fn start() -> (r: Stopwatch) {
        Stopwatch { origin: instant_now() }
    }

    /// Whether the stopwatch was seen to read this: a call of the monotonic clock
    /// gave this reading for the instant it was started at.
    pub closed spec fn reads(self, now: u128) -> bool {
        call_ensures(nanos_since, (&self.origin,), now)
    }

    /// The nanoseconds counted so far; any reading is possible.
    pub fn read(&self) -> (r: u128)
        ensures
            self.reads(r),
    {
        asked_about(nanos_since, &self.origin)
    }
}

/// Milliseconds since the Unix epoch for a clock reading in nanoseconds: a
/// clock set before the epoch reads as zero, one beyond `u64` as its maximum.
pub open spec fn epoch_ms(reading: Option<u128>) -> u64 {
    match reading {
        Some(nanos) => if nanos / 1_000_000 <= u64::MAX {
            (nanos / 1_000_000) as u64
        } else {
            u64::MAX
        },
        None => 0,
    }
}

/// Turns a wall-clock reading into milliseconds since the Unix epoch.
pub fn reading_ms(reading: Option<u128>) -> (r: u64)
    ensures
        r == epoch_ms(reading),
{
    match reading {
        Some(nanos) => {
            let millis: u128 = nanos / 1_000_000u128;
            if millis <= u64::MAX as u128 {
                millis as u64
            } else {
                u64::MAX
            }
        },
        None => 0,
    }
}

/// Whether this is a reading of the wall clock, in milliseconds.
pub open spec fn is_ms_reading(now: u64) -> bool {
    exists|reading: Option<u128>| #[trigger] is_wall_reading(reading) && now == epoch_ms(reading)
}

/// Wall-clock milliseconds since the Unix epoch.
///
/// Audit timestamps are for humans reading a history, not for ordering: the
/// version sequence is what orders revisions, and it does not depend on a
/// clock that can step backwards.
pub fn now_ms() -> (r: u64)
    ensures
        is_ms_reading(r),
{
    let reading = asked(nanos_since_epoch);
    assert(is_wall_reading(reading));
    reading_ms(reading)
}

/// Seconds since the Unix epoch for a clock reading in nanoseconds, or nothing
/// where the clock is set before the epoch or past what `u64` can hold.
pub open spec fn epoch_secs(reading: Option<u128>) -> Option<u64> {
    match reading {
        Some(nanos) => if nanos / 1_000_000_000 <= u64::MAX {
            Some((nanos / 1_000_000_000) as u64)
        } else {
            None
        },
        None => None,
    }
}

/// Turns a wall-clock reading into seconds since the Unix epoch.
pub fn reading_secs(reading: Option<u128>) -> (r: Option<u64>)
    ensures
        r == epoch_secs(reading),
{
    match reading {
        Some(nanos) => {
            let secs: u128 = nanos / 1_000_000_000u128;
            if secs <= u64::MAX as u128 {
                Some(secs as u64)
            } else {
                None
            }
        },
        None => None,
    }
}

/// Whether this is a reading of the wall clock, in seconds.
pub open spec fn is_secs_reading(clock: Option<u64>) -> bool {
    exists|reading: Option<u128>| #[trigger] is_wall_reading(reading) && clock == epoch_secs(
        reading,
    )
}

/// Wall-clock seconds since the Unix epoch, or nothing while the clock is set
/// where no such number exists.
pub fn unix_now() -> (r: Option<u64>)
    ensures
        is_secs_reading(r),
{
    let reading = asked(nanos_since_epoch);
    assert(is_wall_reading(reading));
    reading_secs(reading)
}

/// Nothing is a reading that no clock gave: what counts as one came out of a call
/// of the system's clock.
proof fn law_readings_come_from_the_clock(reading: Option<u128>, watch: Stopwatch, now: u128)
    ensures
        is_wall_reading(reading) ==> call_ensures(nanos_since_epoch, (), reading),
        watch.reads(now) ==> call_ensures(nanos_since, (&watch.origin,), now),
{
}

/// The time in seconds and in milliseconds is the time in nanoseconds, rounded
/// down: `secs` seconds have passed, and not one more.
pub proof fn law_readings_are_rounded_down(clock: Option<u64>, millis: u64)
    requires
        is_secs_reading(clock),
        is_ms_reading(millis),
    ensures
        exists|reading: Option<u128>| #[trigger] is_wall_reading(reading) && match clock {
            Some(secs) => reading is Some && secs * 1_000_000_000 <= reading->0 < (secs + 1)
                * 1_000_000_000,
            None => reading is None || reading->0 >= (u64::MAX + 1) * 1_000_000_000,
        },
        exists|reading: Option<u128>| #[trigger] is_wall_reading(reading) && match reading {
            Some(nanos) => millis * 1_000_000 <= nanos && (millis < u64::MAX ==> nanos < (millis
                + 1) * 1_000_000),
            None => millis == 0,
        },
{
    let by_secs = choose|reading: Option<u128>| #[trigger]
        is_wall_reading(reading) && clock == epoch_secs(reading);
    assert(is_wall_reading(by_secs));
    let by_millis = choose|reading: Option<u128>| #[trigger]
        is_wall_reading(reading) && millis == epoch_ms(reading);
    assert(is_wall_reading(by_millis));
}

/// A span holds its whole seconds and not one more; it is over for something
/// that happened at `since` once `now` is as far from it as the span is long.
pub proof fn law_spans_are_measured(span: Span, since: u128, now: u128)
    ensures
        span.nanos < 18_446_744_073_709_551_616_000_000_000 ==> span.secs() * 1_000_000_000
            <= span.nanos < (span.secs() + 1) * 1_000_000_000,
        span.nanos >= 18_446_744_073_709_551_616_000_000_000 ==> span.secs() == u64::MAX,
        now >= since ==> (within(since, now, span) <==> now < since + span.nanos),
        now < since ==> (within(since, now, span) <==> span.nanos > 0),
{
}

} // verus!
