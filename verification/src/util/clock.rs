//! Wall-clock time.

use std::time::{Duration, SystemTime};
use vstd::prelude::*;

verus! {

/// A point in time of the system clock.
#[verifier::external_type_specification]
#[verifier::external_body]
pub struct ExSystemTime(SystemTime);

/// `SystemTime::now`: the current time. Nothing is claimed of it.
#[verifier::external_body]
fn system_now() -> (r: SystemTime) {
    SystemTime::now()
}

/// `SystemTime::duration_since` the Unix epoch; nothing where the clock stands before it.
/// Nothing is claimed of it: the clock decides.
#[verifier::external_body]
fn since_epoch(t: SystemTime) -> (r: Option<Duration>) {
    t.duration_since(SystemTime::UNIX_EPOCH).ok()
}

/// `Duration::as_millis`: the whole milliseconds of a duration. Nothing is claimed of
/// them: durations are opaque here.
#[verifier::external_body]
fn whole_millis(d: Duration) -> (r: u128) {
    d.as_millis()
}

/// Milliseconds that fit a `u64`; the largest where they do not.
pub fn clamp_millis(ms: u128) -> (r: u64)
    ensures
        r == (if ms <= u64::MAX {
            ms as u64
        } else {
            u64::MAX
        }),
{
    if ms <= u64::MAX as u128 {
        ms as u64
    } else {
        u64::MAX
    }
}

/// The time that is reported when so many milliseconds have passed since the Unix epoch:
/// 0 where the clock stands before it.
pub fn reported_ms(since_epoch: Option<u128>) -> (r: u64)
    ensures
        r == (match since_epoch {
            None => 0,
            Some(ms) => if ms <= u64::MAX {
                ms as u64
            } else {
                u64::MAX
            },
        }),
{
    match since_epoch {
        None => 0,
        Some(ms) => clamp_millis(ms),
    }
}

/// Milliseconds since the Unix epoch, as `reported_ms` has them for the present time. Which
/// number that is is not said: the clock decides, and any can come.
pub fn unix_ms() -> (r: u64) {
    let passed = match since_epoch(system_now()) {
        None => None,
        Some(d) => Some(whole_millis(d)),
    };
    reported_ms(passed)
}

} // verus!
