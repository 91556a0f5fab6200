//! The wall clock. Its readings depend on the time of the call, so nothing is
//! promised of them; the logic that uses them is verified for every reading.
use std::time::{Duration, SystemTime, SystemTimeError};
use vstd::prelude::*;

verus! {

#[verifier::external_type_specification]
#[verifier::external_body]
pub struct ExSystemTime(std::time::SystemTime);

#[verifier::external_type_specification]
#[verifier::external_body]
pub struct ExSystemTimeError(std::time::SystemTimeError);

/// `SystemTime::now`: the current wall-clock time. Nothing is promised of it.
#[verifier::external_body]
pub(crate) fn system_time_now() -> SystemTime {
    SystemTime::now()
}

/// `SystemTime::duration_since(UNIX_EPOCH)`: the time since the Unix epoch,
/// or an error for a clock set before it. Which of the two comes back, and
/// the duration, depend on the clock, so nothing is promised.
#[verifier::external_body]
pub(crate) fn since_unix_epoch(t: &SystemTime) -> Result<Duration, SystemTimeError> {
    t.duration_since(std::time::UNIX_EPOCH)
}

/// `Duration::as_nanos`: the whole nanoseconds of a duration. `Duration` is
/// opaque here, so the result is not tied to it by a clause.
#[verifier::external_body]
pub(crate) fn duration_nanos(d: &Duration) -> u128 {
    d.as_nanos()
}

/// `Duration::subsec_nanos`: the nanoseconds past the whole second.
/// `Duration` is opaque here, so the result is not tied to it by a clause;
/// the documentation bounds it below one billion.
#[verifier::external_body]
pub(crate) fn duration_subsec_nanos(d: &Duration) -> (n: u32)
    ensures
        n < 1_000_000_000,
{
    d.subsec_nanos()
}

/// The seed for a clock reading: the nanoseconds since the Unix epoch cut
/// to 64 bits, or 1 for a clock set before the epoch (`None`).
pub open spec fn seed_of(nanos: Option<u128>) -> u64 {
    match nanos {
        Some(n) => n as u64,
        None => 1u64,
    }
}

/// Turns a clock reading into a seed.
pub fn seed_from_reading(nanos: Option<u128>) -> (s: u64)
    ensures
        s == seed_of(nanos),
{
    match nanos {
        Some(n) => n as u64,
        None => 1,
    }
}

/// A seed from the wall clock: the nanoseconds since the Unix epoch, cut to
/// 64 bits, or 1 when the clock is set before the epoch. Which reading comes
/// back depends on the clock.
pub fn seed_now() -> (s: u64)
    ensures
        exists|nanos: Option<u128>| s == seed_of(nanos),
{
    let now = system_time_now();
    let reading = match since_unix_epoch(&now) {
        Ok(d) => Some(duration_nanos(&d)),
        Err(_) => None,
    };
    let s = seed_from_reading(reading);
    assert(s == seed_of(reading));
    s
}

} // verus!
