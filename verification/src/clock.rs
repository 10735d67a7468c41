//! Clock readings. Every value here depends on the time of the call, so
//! nothing is promised of it beyond its type.

use core::time::Duration;
use std::time::{Instant, SystemTime, UNIX_EPOCH};
use vstd::prelude::*;

verus! {

/// A point in time of the monotonic clock, carried through untouched.
#[verifier::external_type_specification]
#[verifier::external_body]
pub struct ExInstant(Instant);

/// A reading of the wall clock, carried through untouched.
#[verifier::external_type_specification]
#[verifier::external_body]
pub struct ExSystemTime(SystemTime);

/// Reads the monotonic clock (`Instant::now`).
#[verifier::external_body]
pub(crate) fn instant_now() -> Instant {
    Instant::now()
}

/// Time passed since `t` (`Instant::elapsed`).
#[verifier::external_body]
fn elapsed_since(t: &Instant) -> Duration {
    t.elapsed()
}

/// Reads the wall clock (`SystemTime::now`).
#[verifier::external_body]
fn system_now() -> SystemTime {
    SystemTime::now()
}

/// Time from the Unix epoch to `t` (`SystemTime::duration_since`), none
/// when `t` lies before the epoch.
#[verifier::external_body]
fn since_epoch(t: &SystemTime) -> Option<Duration> {
    t.duration_since(UNIX_EPOCH).ok()
}

/// Whole seconds of `d` (`Duration::as_secs`).
#[verifier::external_body]
fn whole_secs(d: &Duration) -> u64 {
    d.as_secs()
}

/// Whole milliseconds of `d` (`Duration::as_millis`).
#[verifier::external_body]
fn whole_millis(d: &Duration) -> u128 {
    d.as_millis()
}

/// Whole milliseconds since `t` on the monotonic clock.
pub(crate) fn millis_since(t: &Instant) -> u128 {
    let d = elapsed_since(t);
    whole_millis(&d)
}

/// Whole seconds since the Unix epoch, 0 when the clock reads before it.
pub(crate) fn unix_now_secs() -> u64 {
    let now = system_now();
    match since_epoch(&now) {
        Some(d) => whole_secs(&d),
        None => 0,
    }
}

/// Whole milliseconds since the Unix epoch, 0 when the clock reads before it.
pub(crate) fn unix_now_millis() -> u128 {
    let now = system_now();
    match since_epoch(&now) {
        Some(d) => whole_millis(&d),
        None => 0,
    }
}

} // verus!
