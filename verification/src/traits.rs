//! Behaviour that envelopes share with other time-stamped values.

use vstd::prelude::*;

verus! {

/// A value that carries the time of its last change.
pub trait Time {
    /// Stamps the value with the current time.
    fn clock_update(&mut self);

    /// The time of the last stamp, in nanoseconds since the Unix epoch.
    fn get_time(&self) -> i64;
}

} // verus!
