//! The two readings this library takes from its surroundings: the wall clock
//! and a source of randomness.
use rand::Rng;
use crate::daycycle::LATEST_INSTANT;
use vstd::prelude::*;

verus! {

/// Relies on `chrono::Utc::now` and `DateTime::timestamp`: the current time as
/// whole seconds since the Unix epoch. Nothing is promised of the value.
#[verifier::external_body]
pub(crate) fn unix_now() -> (r: i64) {
    chrono::Utc::now().timestamp()
}

/// Relies on `rand::thread_rng` and `Rng::gen_range(low, high)` of rand 0.7:
/// a value in `[low, high)`; it panics only when `low >= high`.
#[verifier::external_body]
pub(crate) fn uniform_below(high: u64) -> (r: u64)
    requires
        0 < high,
    ensures
        r < high,
{
    rand::thread_rng().gen_range(0, high)
}

/// The current time in whole seconds since the Unix epoch, held to the range
/// that the day window accepts: a reading before the epoch counts as the epoch,
/// and one past `LATEST_INSTANT` as `LATEST_INSTANT`.
pub fn now_secs() -> (r: u64)
    ensures
        r <= LATEST_INSTANT,
{
    let t = unix_now();
    if t < 0 {
        0
    } else if t as u64 > LATEST_INSTANT {
        LATEST_INSTANT
    } else {
        t as u64
    }
}

} // verus!
