//! Points in time on the UTC time line.

use vstd::prelude::*;

verus! {

/// Nanoseconds in one second.
pub const NANOS_PER_SEC: i128 = 1_000_000_000;

/// Nanoseconds in one millisecond.
pub const NANOS_PER_MILLI: i128 = 1_000_000;

/// The greatest distance, in milliseconds, at which two timestamps still
/// count as near to each other: one minute.
pub const MAX_TIME_DIFFERENCE: i128 = 60_000;

/// A point in time: whole seconds since 1970-01-01T00:00:00Z, negative
/// before it, and the nanoseconds that have passed since that second
/// began.
#[derive(Clone, Copy, Debug, PartialEq, Eq, Structural)]
pub struct Timestamp {
    pub secs: i64,
    pub nanos: u32,
}

impl View for Timestamp {
    type V = int;

    /// Nanoseconds since the epoch.
    open spec fn view(&self) -> int {
        self.secs * NANOS_PER_SEC + self.nanos
    }
}

/// Whether `a` and `b` lie at most `MAX_TIME_DIFFERENCE` milliseconds
/// apart, whichever comes first.
pub open spec fn near(a: Timestamp, b: Timestamp) -> bool {
    -(MAX_TIME_DIFFERENCE * NANOS_PER_MILLI) <= a@ - b@ <= MAX_TIME_DIFFERENCE * NANOS_PER_MILLI
}

impl Timestamp {
    /// The point `nanos` nanoseconds after the second `secs`.
    pub fn new(secs: i64, nanos: u32) -> (t: Timestamp)
        ensures
            t.secs == secs,
            t.nanos == nanos,
    {
        Timestamp { secs, nanos }
    }

    /// Nanoseconds since the epoch.
    pub fn total_nanos(&self) -> (n: i128)
        ensures
            n == self@,
    {
        self.secs as i128 * NANOS_PER_SEC + self.nanos as i128
    }

    /// Whether `self` and `other` lie at most `MAX_TIME_DIFFERENCE`
    /// milliseconds apart, whichever comes first.
    pub fn is_near(&self, other: &Timestamp) -> (b: bool)
        ensures
            b == near(*self, *other),
    {
        let window: i128 = MAX_TIME_DIFFERENCE * NANOS_PER_MILLI;
        let difference: i128 = self.total_nanos() - other.total_nanos();
        -window <= difference && difference <= window
    }

    /// Whether `self` lies strictly before `other`.
    pub fn is_before(&self, other: &Timestamp) -> (b: bool)
        ensures
            b == (self@ < other@),
    {
        self.total_nanos() < other.total_nanos()
    }
}

} // verus!
