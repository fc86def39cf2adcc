//! Whole-second delays, and the few readings of the system clocks the
//! library makes.

use vstd::prelude::*;
use std::time::{Duration, Instant, SystemTime};

verus! {

/// A delay of a whole number of seconds.
#[derive(Debug, Clone, Copy, PartialEq, Eq, Structural)]
pub struct Delay {
    pub secs: u64,
}

impl Delay {
    /// A delay of `secs` seconds.
    pub fn from_secs(secs: u64) -> (d: Delay)
        ensures
            d.secs == secs,
    {
        Delay { secs }
    }

    /// The length of the delay in seconds.
    pub fn as_secs(&self) -> (s: u64)
        ensures
            s == self.secs,
    {
        self.secs
    }
}

#[verifier::external_type_specification]
#[verifier::external_body]
pub struct ExInstant(Instant);

#[verifier::external_type_specification]
#[verifier::external_body]
pub struct ExSystemTime(SystemTime);

/// The current instant of the monotonic clock. Calls `Instant::now`; nothing
/// is claimed of the result.
#[verifier::external_body]
pub(crate) fn instant_now() -> Instant {
    Instant::now()
}

/// The time elapsed since `origin`. Calls `Instant::elapsed`; nothing is
/// claimed of the result, which depends on the clock.
#[verifier::external_body]
fn instant_elapsed(origin: &Instant) -> Duration {
    origin.elapsed()
}

/// The current time of the system clock. Calls `SystemTime::now`; nothing is
/// claimed of the result.
#[verifier::external_body]
fn system_time_now() -> SystemTime {
    SystemTime::now()
}

/// The time since the Unix epoch, or `None` when `t` is before it. Calls
/// `SystemTime::duration_since`; nothing is claimed of the result.
#[verifier::external_body]
fn since_unix_epoch(t: &SystemTime) -> Option<Duration> {
    match t.duration_since(std::time::UNIX_EPOCH) {
        Ok(d) => Some(d),
        Err(_) => None,
    }
}

/// The whole seconds of a duration. Calls `Duration::as_secs`; nothing is
/// claimed of the result, since the duration is opaque here.
#[verifier::external_body]
fn duration_secs(d: &Duration) -> u64 {
    d.as_secs()
}

/// The whole milliseconds of a duration. Calls `Duration::as_millis`;
/// nothing is claimed of the result, since the duration is opaque here.
#[verifier::external_body]
fn duration_millis(d: &Duration) -> u128 {
    d.as_millis()
}

/// The nanoseconds of a duration past its whole seconds. Calls
/// `Duration::subsec_nanos`, which documents that the value is below one
/// billion; the contract claims that much.
#[verifier::external_body]
fn duration_subsec_nanos(d: &Duration) -> (r: u32)
    ensures
        r < 1_000_000_000,
{
    d.subsec_nanos()
}

/// The whole seconds since the Unix epoch, or 0 when the clock is set
/// before it.
pub fn secs_since_unix_epoch() -> u64 {
    match since_unix_epoch(&system_time_now()) {
        Some(d) => duration_secs(&d),
        None => 0,
    }
}

/// The nanoseconds past the whole second of the time since the Unix epoch,
/// or `None` when the clock is set before it.
pub fn subsec_nanos_now() -> (r: Option<u32>)
    ensures
        r matches Some(n) ==> n < 1_000_000_000,
{
    match since_unix_epoch(&system_time_now()) {
        Some(d) => Some(duration_subsec_nanos(&d)),
        None => None,
    }
}

/// The milliseconds elapsed since `origin`, at most the largest `u64`.
pub fn millis_since(origin: &Instant) -> u64 {
    let ms = duration_millis(&instant_elapsed(origin));
    if ms > u64::MAX as u128 {
        u64::MAX
    } else {
        ms as u64
    }
}

/// A token for a search typed at the command line: the nanoseconds past the
/// whole second of the clock (0 when the clock is set before the Unix
/// epoch).
pub fn rand_u32() -> (r: u32)
    ensures
        r < 1_000_000_000,
{
    match subsec_nanos_now() {
        Some(n) => n,
        None => 0,
    }
}

} // verus!
