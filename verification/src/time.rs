//! Points in time and spans of time, as whole nanoseconds.

use vstd::prelude::*;

verus! {

/// The number of nanoseconds in a second.
pub const NANOS_PER_SEC: u128 = 1_000_000_000;

/// The number of nanoseconds in a millisecond.
pub const NANOS_PER_MILLI: u128 = 1_000_000;

/// A span of time.
#[derive(Debug, Clone, Copy, PartialEq, Eq, PartialOrd, Ord, Hash, Structural)]
pub struct Duration {
    /// The length of the span in nanoseconds.
    pub nanos: u128,
}

impl Duration {
    /// The span of no length.
    pub fn zero() -> (span: Self)
        ensures
            span.nanos == 0,
    {
        Duration { nanos: 0 }
    }

    /// A span of whole seconds.
    pub fn from_secs(secs: u64) -> (span: Self)
        ensures
            span.nanos == secs * NANOS_PER_SEC,
            span.nanos == secs * 1_000_000_000,
    {
        Duration { nanos: (secs as u128) * NANOS_PER_SEC }
    }

    /// A span of whole milliseconds.
    pub fn from_millis(millis: u64) -> (span: Self)
        ensures
            span.nanos == millis * NANOS_PER_MILLI,
            span.nanos == millis * 1_000_000,
    {
        Duration { nanos: (millis as u128) * NANOS_PER_MILLI }
    }

    /// The number of whole seconds in the span.
    pub fn as_secs(&self) -> (secs: u128)
        ensures
            secs == self.nanos / NANOS_PER_SEC,
            secs * 1_000_000_000 <= self.nanos < (secs + 1) * 1_000_000_000,
    {
        self.nanos / NANOS_PER_SEC
    }

    /// The number of whole milliseconds in the span.
    pub fn as_millis(&self) -> (millis: u128)
        ensures
            millis == self.nanos / NANOS_PER_MILLI,
            millis * 1_000_000 <= self.nanos < (millis + 1) * 1_000_000,
    {
        self.nanos / NANOS_PER_MILLI
    }
}

/// A point in time, counted from some fixed origin.
#[derive(Debug, Clone, Copy, PartialEq, Eq, PartialOrd, Ord, Hash, Structural)]
pub struct Instant {
    /// The distance from the origin in nanoseconds.
    pub nanos: u128,
}

impl Instant {
    /// The span that passed since an earlier point, or no span at all if that point is later.
    pub open spec fn spec_since(self, earlier: Instant) -> Duration {
        if earlier.nanos <= self.nanos {
            Duration { nanos: (self.nanos - earlier.nanos) as u128 }
        } else {
            Duration { nanos: 0 }
        }
    }

    /// The span that passed since an earlier point, or no span at all if that point is later.
    #[verifier::when_used_as_spec(spec_since)]
    pub fn since(self, earlier: Instant) -> (span: Duration)
        ensures
            span == self.spec_since(earlier),
    {
        Duration { nanos: self.nanos.saturating_sub(earlier.nanos) }
    }
}

/// The span between two points in time is what has to be added to the earlier one to get to the
/// later one, to the nanosecond. There is none if the points are in the wrong order.
pub proof fn law_spans_add_up(earlier: Instant, later: Instant)
    ensures
        earlier.nanos <= later.nanos ==> earlier.nanos + later.since(earlier).nanos == later.nanos,
        earlier.nanos >= later.nanos ==> later.since(earlier).nanos == 0,
{
}

} // verus!
