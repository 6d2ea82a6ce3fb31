//! Wall-clock time, read once and converted in verified code.

use vstd::prelude::*;
use std::time::{SystemTime, UNIX_EPOCH};

verus! {

/// Nanoseconds since the Unix epoch by `SystemTime::now()`, or zero when the
/// clock reads before the epoch (`duration_since` fails). Nothing is
/// promised of the value beyond what a `Duration` can hold: whole seconds in
/// a `u64` and under a second of nanoseconds.
#[verifier::external_body]
fn since_unix_epoch_ns() -> (r: u128)
    ensures
        r < (u64::MAX as u128 + 1) * 1_000_000_000,
{
    match SystemTime::now().duration_since(UNIX_EPOCH) {
        Ok(d) => d.as_nanos(),
        Err(_) => 0,
    }
}

/// Whole milliseconds of a span in nanoseconds, capped at `i64::MAX`.
pub open spec fn millis_capped(ns: u128) -> i64 {
    if ns / 1_000_000 > i64::MAX {
        i64::MAX
    } else {
        (ns / 1_000_000) as i64
    }
}

/// Unix time in milliseconds, capped at `i64::MAX`; zero before the epoch.
pub fn unix_ms() -> (r: i64)
    ensures
        r >= 0,
{
    let ns = since_unix_epoch_ns();
    ms_of(ns)
}

/// Whole milliseconds of nanoseconds, capped at `i64::MAX`.
pub fn ms_of(ns: u128) -> (r: i64)
    ensures
        r == millis_capped(ns),
        r >= 0,
{
    let ms = ns / 1_000_000;
    if ms > i64::MAX as u128 {
        i64::MAX
    } else {
        ms as i64
    }
}

/// Whole seconds of nanoseconds that a `Duration` can hold.
pub fn secs_of(ns: u128) -> (r: u64)
    requires
        ns < (u64::MAX as u128 + 1) * 1_000_000_000,
    ensures
        r == ns / 1_000_000_000,
{
    (ns / 1_000_000_000) as u64
}

/// Unix time in whole seconds; zero before the epoch.
pub fn now_unix() -> (r: u64) {
    let ns = since_unix_epoch_ns();
    secs_of(ns)
}

} // verus!
