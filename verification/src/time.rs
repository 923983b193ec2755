//! Spans of time.

use vstd::prelude::*;

verus! {

/// A span of time, counted in nanoseconds.
#[derive(Debug, Clone, Copy, PartialEq, Eq, Structural)]
pub struct Duration {
    pub nanos: u128,
}

/// The longest span that arithmetic produces: the largest `u64` count of seconds, and almost one more.
pub const MAX_NANOS: u128 = 18_446_744_073_709_551_615_999_999_999;

/// The smaller of two numbers.
pub open spec fn smaller(a: int, b: int) -> int {
    if a <= b {
        a
    } else {
        b
    }
}

impl Duration {
    pub fn zero() -> (r: Duration)
        ensures
            r.nanos == 0,
    {
        Duration { nanos: 0 }
    }

    pub fn from_secs(secs: u64) -> (r: Duration)
        ensures
            r.nanos == secs * 1_000_000_000,
    {
        Duration { nanos: (secs as u128) * 1_000_000_000 }
    }

    pub fn from_millis(millis: u64) -> (r: Duration)
        ensures
            r.nanos == millis * 1_000_000,
    {
        Duration { nanos: (millis as u128) * 1_000_000 }
    }

    /// Whole seconds, at most `u64::MAX`.
    pub fn as_secs(self) -> (r: u64)
        ensures
            r == smaller(self.nanos as int / 1_000_000_000, u64::MAX as int),
    {
        let secs: u128 = self.nanos / 1_000_000_000;
        if secs <= 18_446_744_073_709_551_615 {
            secs as u64
        } else {
            18_446_744_073_709_551_615
        }
    }

    /// Whole milliseconds.
    pub fn as_millis(self) -> (r: u128)
        ensures
            r == self.nanos / 1_000_000,
    {
        self.nanos / 1_000_000
    }

    pub fn as_nanos(self) -> (r: u128)
        ensures
            r == self.nanos,
    {
        self.nanos
    }

    /// The sum of two spans, or the longest span where the sum is longer.
    pub fn saturating_add(self, other: Duration) -> (r: Duration)
        ensures
            r.nanos == smaller(self.nanos + other.nanos, MAX_NANOS as int),
    {
        if self.nanos >= MAX_NANOS || other.nanos >= MAX_NANOS - self.nanos {
            Duration { nanos: MAX_NANOS }
        } else {
            Duration { nanos: self.nanos + other.nanos }
        }
    }

    /// The difference of two spans, or zero where it would be negative.
    pub fn saturating_sub(self, other: Duration) -> (r: Duration)
        ensures
            r.nanos == if self.nanos >= other.nanos {
                self.nanos - other.nanos
            } else {
                0
            },
    {
        if self.nanos >= other.nanos {
            Duration { nanos: self.nanos - other.nanos }
        } else {
            Duration { nanos: 0 }
        }
    }

    pub fn is_shorter_than(self, other: Duration) -> (r: bool)
        ensures
            r == (self.nanos < other.nanos),
    {
        self.nanos < other.nanos
    }
}

} // verus!
