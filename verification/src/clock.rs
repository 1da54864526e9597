//! The calendar day, read from the system clock.
use vstd::prelude::*;

verus! {

#[verifier::external_type_specification]
#[verifier::external_body]
pub struct ExSystemTime(std::time::SystemTime);

#[verifier::external_type_specification]
#[verifier::external_body]
pub struct ExSystemTimeError(std::time::SystemTimeError);

/// The current time.
///
/// Trusted: calls `SystemTime::now`. Nothing is stated of the result: it is
/// whatever the system clock reads.
#[verifier::external_body]
fn system_now() -> std::time::SystemTime {
    std::time::SystemTime::now()
}

/// How long after the Unix epoch `t` is.
///
/// Trusted: calls `SystemTime::duration_since` with `UNIX_EPOCH`, which errs
/// when `t` lies before the epoch. Nothing is stated of the duration.
#[verifier::external_body]
fn since_unix_epoch(t: &std::time::SystemTime) -> std::result::Result<
    core::time::Duration,
    std::time::SystemTimeError,
> {
    t.duration_since(std::time::UNIX_EPOCH)
}

/// The whole seconds of a duration.
///
/// Trusted: calls `Duration::as_secs`. The duration is opaque here, so
/// nothing is stated of the result beyond its type.
#[verifier::external_body]
fn whole_seconds(d: &core::time::Duration) -> u64 {
    d.as_secs()
}

/// The number of seconds in a day.
pub const SECS_PER_DAY: u64 = 86400;

/// The day number of a clock reading: the whole days in `secs` seconds
/// since the Unix epoch, or 0 for a reading before the epoch (`None`).
pub open spec fn day_of(secs: Option<u64>) -> u64 {
    match secs {
        Some(s) => s / SECS_PER_DAY,
        None => 0,
    }
}

/// The day number of a clock reading given as whole seconds since the Unix
/// epoch, or `None` for a reading before the epoch.
pub fn day_of_secs(secs: Option<u64>) -> (day: u64)
    ensures
        day == day_of(secs),
{
    match secs {
        Some(s) => s / SECS_PER_DAY,
        None => 0,
    }
}

/// Today as a day number: whole days since the Unix epoch (UTC), or 0 when
/// the clock reads a time before the epoch. Which reading that is depends
/// on the clock, so the result is stated as the day of some reading.
pub fn today_number() -> (day: u64)
    ensures
        exists|secs: Option<u64>| day == #[trigger] day_of(secs),
        day <= u64::MAX / SECS_PER_DAY,
{
    let now = system_now();
    let secs = match since_unix_epoch(&now) {
        Ok(d) => Some(whole_seconds(&d)),
        Err(_) => None,
    };
    let day = day_of_secs(secs);
    assert(day == day_of(secs));
    day
}

} // verus!
