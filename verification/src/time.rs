//! Spans of time, counted in nanoseconds like `std::time::Duration`.
use vstd::prelude::*;

verus! {

/// A span of time in nanoseconds. Every `std::time::Duration` has exactly one
/// such span, and spans compare as the durations do.
#[derive(Clone, Copy, Debug, PartialEq, Eq, Structural)]
pub struct TimeSpan {
    pub nanos: u128,
}

impl TimeSpan {
    pub fn zero() -> (t: TimeSpan)
        ensures
            t.nanos == 0,
    {
        TimeSpan { nanos: 0 }
    }

    pub fn from_secs(secs: u64) -> (t: TimeSpan)
        ensures
            t.nanos == secs * 1_000_000_000,
    {
        TimeSpan { nanos: (secs as u128) * 1_000_000_000 }
    }

    pub fn from_millis(millis: u64) -> (t: TimeSpan)
        ensures
            t.nanos == millis * 1_000_000,
    {
        TimeSpan { nanos: (millis as u128) * 1_000_000 }
    }

    pub fn from_nanos(nanos: u128) -> (t: TimeSpan)
        ensures
            t.nanos == nanos,
    {
        TimeSpan { nanos }
    }

    /// Whole milliseconds in the span.
    pub fn as_millis(&self) -> (m: u128)
        ensures
            m == self.nanos / 1_000_000,
    {
        self.nanos / 1_000_000
    }
}

} // verus!
