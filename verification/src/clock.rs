//! Reading the clocks, and fitting durations into the integer widths that
//! the queue records use.

use vstd::prelude::*;

verus! {

#[verifier::external_type_specification]
#[verifier::external_body]
pub struct ExInstant(std::time::Instant);

#[verifier::external_type_specification]
#[verifier::external_body]
pub struct ExSystemTime(std::time::SystemTime);

/// Calls `std::time::Instant::elapsed`, given in nanoseconds. The result
/// depends on the time of the call, so nothing is claimed of it.
#[verifier::external_body]
fn instant_elapsed_nanos(started: &std::time::Instant) -> (nanos: u128) {
    started.elapsed().as_nanos()
}

/// Calls `std::time::SystemTime::now`. Nothing is claimed of the result,
/// which is the time of the call.
#[verifier::external_body]
fn system_time_now() -> (now: std::time::SystemTime) {
    std::time::SystemTime::now()
}

/// Calls `std::time::SystemTime::duration_since` with the Unix epoch,
/// giving the duration in nanoseconds, or `None` for a time before the
/// epoch (the call's error). Nothing is claimed of the value, which depends
/// on the system clock.
#[verifier::external_body]
fn nanos_since_unix_epoch(time: std::time::SystemTime) -> (nanos: Option<u128>) {
    match time.duration_since(std::time::UNIX_EPOCH) {
        Ok(duration) => Some(duration.as_nanos()),
        Err(_) => None,
    }
}

/// A duration in nanoseconds, saturated to `u64`.
pub fn saturate_nanos(nanos: u128) -> (saturated: u64)
    ensures
        saturated == if nanos <= u64::MAX as u128 { nanos as u64 } else { u64::MAX },
{
    if nanos <= u64::MAX as u128 {
        nanos as u64
    } else {
        u64::MAX
    }
}

/// A nanosecond count saturated to `i64`, the width of the queue's time
/// fields.
pub fn nanos_as_i64(nanos: u64) -> (clamped: i64)
    ensures
        clamped == if nanos <= i64::MAX as u64 { nanos as i64 } else { i64::MAX },
        clamped >= 0,
{
    if nanos <= i64::MAX as u64 {
        nanos as i64
    } else {
        i64::MAX
    }
}

/// A nanosecond count saturated to `i64` from a wide count.
pub fn wide_nanos_as_i64(nanos: u128) -> (clamped: i64)
    ensures
        clamped == if nanos <= i64::MAX as u128 { nanos as i64 } else { i64::MAX },
        clamped >= 0,
{
    if nanos <= i64::MAX as u128 {
        nanos as i64
    } else {
        i64::MAX
    }
}

/// Nanoseconds elapsed since `started`, saturated to `u64`.
pub fn elapsed_ns(started: &std::time::Instant) -> (nanos: u64) {
    saturate_nanos(instant_elapsed_nanos(started))
}

/// The nanoseconds since the Unix epoch of a clock reading (`None` for a
/// reading before the epoch, which counts as 0), saturated to `i64`.
pub fn nanos_from_epoch(since: Option<u128>) -> (nanos: i64)
    ensures
        nanos == match since {
            Some(n) => if n <= i64::MAX as u128 { n as i64 } else { i64::MAX },
            None => 0i64,
        },
{
    let wide = match since {
        Some(n) => n,
        None => 0,
    };
    wide_nanos_as_i64(wide)
}

/// Nanoseconds since the Unix epoch, saturated to `i64`; 0 when the system
/// clock is before the epoch (see `nanos_from_epoch`, which is applied to
/// the clock reading).
pub fn unix_ns_i64() -> (nanos: i64)
    ensures
        nanos >= 0,
{
    let now = system_time_now();
    nanos_from_epoch(nanos_since_unix_epoch(now))
}

} // verus!
