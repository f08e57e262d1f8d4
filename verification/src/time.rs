//! Points in time and spans of time, counted in nanoseconds.

use vstd::prelude::*;

verus! {

/// A span of time.
#[derive(Debug, Clone, Copy, PartialEq, Eq, Structural)]
pub struct Duration {
    pub nanos: u128,
}

impl Duration {
    /// A span of `secs` whole seconds.
    pub fn from_secs(secs: u64) -> (span: Duration)
        ensures
            span.nanos == secs * 1_000_000_000,
    {
        Duration { nanos: secs as u128 * 1_000_000_000 }
    }

    /// The number of whole milliseconds in the span.
    pub fn as_millis(&self) -> (millis: u128)
        ensures
            millis == self.nanos / 1_000_000,
    {
        self.nanos / 1_000_000
    }
}

/// A reading of a monotonic clock.
#[derive(Debug, Clone, Copy, PartialEq, Eq, Structural)]
pub struct Instant {
    pub nanos: u128,
}

impl Instant {
    /// The span from `self` to `now`, or an empty span if `now` is not later than `self`.
    pub open spec fn span_to(self, now: Instant) -> int {
        if self.nanos < now.nanos {
            now.nanos - self.nanos
        } else {
            0
        }
    }

    /// The time that has passed between `self` and `now`.
    pub fn elapsed(&self, now: Instant) -> (span: Duration)
        ensures
            span.nanos == self.span_to(now),
            self.nanos <= now.nanos ==> span.nanos == now.nanos - self.nanos,
            now.nanos <= self.nanos ==> span.nanos == 0,
    {
        if self.nanos < now.nanos {
            Duration { nanos: now.nanos - self.nanos }
        } else {
            Duration { nanos: 0 }
        }
    }
}

/// The span between two readings is their difference, it is empty if they are not in order, and
/// two spans that follow each other add up.
pub proof fn law_span_is_difference(first: Instant, second: Instant, third: Instant)
    ensures
        first.nanos <= second.nanos ==> first.span_to(second) == second.nanos - first.nanos,
        second.nanos <= first.nanos ==> first.span_to(second) == 0,
        first.nanos <= second.nanos <= third.nanos ==> first.span_to(second) + second.span_to(third)
            == first.span_to(third),
{
}

} // verus!
