//! Time, as plain values.
//!
//! Nothing in the library reads a clock: whoever does hands what it read over
//! in these types.

use crate::value::Value;
use vstd::prelude::*;

verus! {

/// How long something took, in nanoseconds.
#[derive(Clone, Copy, Debug, PartialEq, Eq, PartialOrd, Ord, Structural)]
pub struct Duration {
    /// The nanoseconds.
    pub nanos: u128,
}

impl Duration {
    /// A span of whole seconds.
    pub fn from_secs(secs: u64) -> (span: Self)
        ensures
            span.nanos == secs * 1_000_000_000,
    {
        Duration { nanos: (secs as u128) * 1_000_000_000 }
    }

    /// A span of whole milliseconds.
    pub fn from_millis(millis: u64) -> (span: Self)
        ensures
            span.nanos == millis * 1_000_000,
    {
        Duration { nanos: (millis as u128) * 1_000_000 }
    }

    /// A span of nanoseconds.
    pub fn from_nanos(nanos: u64) -> (span: Self)
        ensures
            span.nanos == nanos,
    {
        Duration { nanos: nanos as u128 }
    }
}

impl DeepView for Duration {
    type V = Duration;

    open spec fn deep_view(&self) -> Duration {
        *self
    }
}

impl Value for Duration {
    fn dup(&self) -> (copy: Self) {
        *self
    }

    fn same(&self, other: &Self) -> (equal: bool) {
        *self == *other
    }
}

/// A point on a clock that only goes forward, in nanoseconds since a point of
/// its own.
#[derive(Clone, Copy, Debug, PartialEq, Eq, PartialOrd, Ord, Structural)]
pub struct Instant {
    /// The nanoseconds since that clock's beginning.
    pub nanos: u128,
}

/// How long after `earlier` a point is; nothing, if it is before it.
pub open spec fn since(later: Instant, earlier: Instant) -> Duration {
    Duration {
        nanos: if later.nanos >= earlier.nanos {
            (later.nanos - earlier.nanos) as u128
        } else {
            0
        },
    }
}

impl Instant {
    /// How long after `earlier` this is; nothing, if it is before it.
    pub fn saturating_duration_since(self, earlier: Instant) -> (span: Duration)
        ensures
            span == since(self, earlier),
    {
        if self.nanos >= earlier.nanos {
            Duration { nanos: self.nanos - earlier.nanos }
        } else {
            Duration { nanos: 0 }
        }
    }
}

impl DeepView for Instant {
    type V = Instant;

    open spec fn deep_view(&self) -> Instant {
        *self
    }
}

impl Value for Instant {
    fn dup(&self) -> (copy: Self) {
        *self
    }

    fn same(&self, other: &Self) -> (equal: bool) {
        *self == *other
    }
}

/// A point in time: whole seconds since the Unix epoch, and the nanoseconds
/// after them.
#[derive(Clone, Copy, Debug, PartialEq, Eq, PartialOrd, Ord, Structural)]
pub struct SystemTime {
    /// Seconds since the epoch, negative before it.
    pub secs: i64,
    /// Nanoseconds after those seconds.
    pub nanos: u32,
}

/// Whether one point in time is strictly earlier than another.
pub open spec fn earlier(a: SystemTime, b: SystemTime) -> bool {
    a.secs < b.secs || (a.secs == b.secs && a.nanos < b.nanos)
}

impl SystemTime {
    /// A point a whole number of seconds from the epoch.
    pub fn at(secs: i64) -> (time: Self)
        ensures
            time == (SystemTime { secs, nanos: 0 }),
    {
        SystemTime { secs, nanos: 0 }
    }

    /// Whether this is strictly earlier than another point.
    pub fn is_earlier(self, other: SystemTime) -> (first: bool)
        ensures
            first == earlier(self, other),
    {
        self.secs < other.secs || (self.secs == other.secs && self.nanos < other.nanos)
    }
}

impl DeepView for SystemTime {
    type V = SystemTime;

    open spec fn deep_view(&self) -> SystemTime {
        *self
    }
}

impl Value for SystemTime {
    fn dup(&self) -> (copy: Self) {
        *self
    }

    fn same(&self, other: &Self) -> (equal: bool) {
        *self == *other
    }
}

/// How long something took is the difference between two moments, and nothing
/// where they are the wrong way round; points in time go by their seconds first.
pub proof fn moments_are_compared(a: Instant, b: Instant, x: SystemTime, y: SystemTime)
    ensures
        a.nanos >= b.nanos ==> since(a, b).nanos == a.nanos - b.nanos,
        a.nanos < b.nanos ==> since(a, b).nanos == 0,
        x.secs < y.secs ==> earlier(x, y) && !earlier(y, x),
        x.secs == y.secs ==> earlier(x, y) == (x.nanos < y.nanos),
{
}

} // verus!
