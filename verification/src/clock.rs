//! The wall clock that stamps envelopes.

use vstd::prelude::*;

verus! {

/// Calls chrono's `Utc::now`, then `DateTime::timestamp_nanos_opt`; `None` is a
/// date whose nanoseconds an `i64` cannot hold.
/// Trusted: a reading is not negative. `Utc::now` takes the time that has
/// passed since the Unix epoch and fails where the system's clock stands
/// before it; nothing else is claimed of what the clock gives.
#[verifier::external_body]
fn clock_nanos() -> (t: Option<i64>)
    ensures
        t matches Some(n) ==> n >= 0,
{
    chrono::Utc::now().timestamp_nanos_opt()
}

/// The current time in nanoseconds since the Unix epoch, held at the largest
/// value where an `i64` cannot count that far. It is never negative.
pub fn now() -> (t: i64)
    ensures
        t >= 0,
{
    nanos_or_latest(clock_nanos())
}

/// What a reading of the clock counts as: its nanoseconds, and the largest
/// value where it has none.
pub open spec fn nanos_or_latest_spec(reading: Option<i64>) -> i64 {
    match reading {
        Some(t) => t,
        None => i64::MAX,
    }
}

/// The timestamp that stands for a reading of the clock.
pub fn nanos_or_latest(reading: Option<i64>) -> (t: i64)
    ensures
        t == nanos_or_latest_spec(reading),
{
    match reading {
        Some(t) => t,
        None => i64::MAX,
    }
}

} // verus!
