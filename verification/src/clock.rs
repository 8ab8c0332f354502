//! The wall clock and the monotonic clock, read through the standard
//! library. What the clocks say is outside the reach of proof; the
//! functions here only pass their readings on as plain numbers.
use vstd::prelude::*;
use std::time::{Duration, Instant, SystemTime};

verus! {

/// `std::time::SystemTime`, carried as an opaque value.
#[verifier::external_type_specification]
#[verifier::external_body]
pub struct ExSystemTime(SystemTime);

/// `std::time::Instant`, carried as an opaque value.
#[verifier::external_type_specification]
#[verifier::external_body]
pub struct ExInstant(Instant);

/// The present wall-clock time, from `std::time::SystemTime::now`. Nothing
/// is claimed of it.
#[verifier::external_body]
fn wall_clock_now() -> SystemTime {
    SystemTime::now()
}

/// The time passed since the Unix epoch up to a wall-clock time, from
/// `std::time::SystemTime::duration_since`; nothing where the time lies
/// before the epoch. Nothing is claimed of the value.
#[verifier::external_body]
fn since_unix_epoch(time: &SystemTime) -> Option<Duration> {
    time.duration_since(std::time::UNIX_EPOCH).ok()
}

/// The whole microseconds of a span of time, from
/// `std::time::Duration::as_micros`. Nothing is claimed of the value.
#[verifier::external_body]
fn whole_micros(span: &Duration) -> u128 {
    span.as_micros()
}

/// The whole milliseconds of a span of time, from
/// `std::time::Duration::as_millis`. Nothing is claimed of the value.
#[verifier::external_body]
fn whole_millis(span: &Duration) -> u128 {
    span.as_millis()
}

/// The present moment on the monotonic clock, from
/// `std::time::Instant::now`. Nothing is claimed of it.
#[verifier::external_body]
pub(crate) fn moment_now() -> Instant {
    Instant::now()
}

/// The time passed since a moment, from `std::time::Instant::elapsed`.
/// Nothing is claimed of the value.
#[verifier::external_body]
fn elapsed_since(moment: &Instant) -> Duration {
    moment.elapsed()
}

/// The timestamp that stands for a reading of the wall clock, given as the
/// whole microseconds since the Unix epoch or as nothing for a clock set
/// before the epoch: zero for no reading, the largest 64-bit number for a
/// reading beyond what 64 bits can count, and the reading itself otherwise.
pub open spec fn timestamp_of(since_epoch_micros: Option<u128>) -> u64 {
    match since_epoch_micros {
        Some(micros) => if micros > u64::MAX {
            u64::MAX
        } else {
            micros as u64
        },
        None => 0,
    }
}

/// The timestamp that stands for a reading of the wall clock.
pub fn timestamp_from(since_epoch_micros: Option<u128>) -> (stamp: u64)
    ensures
        stamp == timestamp_of(since_epoch_micros),
{
    match since_epoch_micros {
        Some(micros) => {
            if micros > u64::MAX as u128 {
                u64::MAX
            } else {
                micros as u64
            }
        },
        None => 0,
    }
}

/// Whole microseconds since the Unix epoch on the wall clock, as the
/// timestamp that stands for the clock's reading. What the clock reads is
/// not known in advance, so nothing is promised of the value.
pub fn unix_time_micros() -> u64 {
    let now = wall_clock_now();
    let reading = match since_unix_epoch(&now) {
        Some(span) => Some(whole_micros(&span)),
        None => None,
    };
    timestamp_from(reading)
}

/// Whole milliseconds passed since a moment on the monotonic clock. What
/// the clock reads is not known in advance, so nothing is promised of the
/// value.
pub fn millis_since(moment: &Instant) -> u128 {
    let span = elapsed_since(moment);
    whole_millis(&span)
}

} // verus!
