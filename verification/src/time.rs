//! Plain-integer points and spans on the monotonic clock.

use vstd::prelude::*;

verus! {

pub const NANOS_PER_SECOND: u128 = 1_000_000_000;

pub const NANOS_PER_MILLI: u128 = 1_000_000;

/// The last nanosecond the monotonic clock can name: `i64::MAX` whole seconds and
/// the fraction that still fits beside them.
pub const LAST_INSTANT_NANOS: u128 = 9_223_372_036_854_775_807_999_999_999;

/// A span of time, in nanoseconds.
pub type Duration = u128;

/// A point on the monotonic clock, in nanoseconds after the clock's origin.
#[derive(Clone, Copy, Debug, PartialEq, Eq, Structural)]
pub struct Instant {
    pub nanos: u128,
}

pub fn seconds(count: u64) -> (duration: Duration)
    ensures
        duration == count * NANOS_PER_SECOND,
{
    count as u128 * NANOS_PER_SECOND
}

pub fn milliseconds(count: u64) -> (duration: Duration)
    ensures
        duration == count * NANOS_PER_MILLI,
{
    count as u128 * NANOS_PER_MILLI
}

/// How often a period fits into a span of time. A count beyond 64 bits is held at the largest.
pub fn whole_periods(elapsed: Duration, period: Duration) -> (count: u64)
    requires
        period > 0,
    ensures
        count == if elapsed / period <= u64::MAX {
            elapsed as int / period as int
        } else {
            u64::MAX as int
        },
{
    let count: u128 = elapsed / period;
    if count <= u64::MAX as u128 {
        count as u64
    } else {
        u64::MAX
    }
}

impl Instant {
    /// The point `duration` later, or `None` when the clock cannot name it.
    pub fn checked_add(self, duration: Duration) -> (later: Option<Instant>)
        ensures
            later == self.plus(duration),
    {
        if self.nanos <= LAST_INSTANT_NANOS && duration <= LAST_INSTANT_NANOS - self.nanos {
            Some(Instant { nanos: self.nanos + duration })
        } else {
            None
        }
    }

    pub open spec fn plus(self, duration: Duration) -> Option<Instant> {
        if self.nanos + duration <= LAST_INSTANT_NANOS {
            Some(Instant { nanos: (self.nanos + duration) as u128 })
        } else {
            None
        }
    }

    /// The time from `earlier` to `self`, or nothing when `earlier` lies ahead.
    pub fn saturating_duration_since(self, earlier: Instant) -> (duration: Duration)
        ensures
            duration == self.since(earlier),
    {
        if self.nanos >= earlier.nanos {
            self.nanos - earlier.nanos
        } else {
            0
        }
    }

    pub open spec fn since(self, earlier: Instant) -> Duration {
        if self.nanos >= earlier.nanos {
            (self.nanos - earlier.nanos) as u128
        } else {
            0
        }
    }
}

} // verus!
