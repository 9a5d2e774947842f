//! Points and distances on the time line, counted in nanoseconds.

use vstd::prelude::*;

verus! {

/// Nanoseconds in one second.
pub const NANOS_PER_SEC: i128 = 1_000_000_000;

/// A point in time: whole seconds since the Unix epoch and the nanoseconds
/// that passed after them.
///
/// Every pair of fields is a valid instant: nanoseconds beyond a second count
/// into the seconds that follow. Two instants are the same point in time when
/// their views agree.
#[derive(Clone, Copy, Debug, PartialEq, Eq, Hash)]
pub struct Instant {
    pub secs: i64,
    pub nanos: u32,
}

/// A signed distance in time: whole seconds and nanoseconds, added up.
#[derive(Clone, Copy, Debug, PartialEq, Eq, Hash)]
pub struct Span {
    pub secs: i64,
    pub nanos: i32,
}

impl View for Instant {
    type V = int;

    /// Nanoseconds since the Unix epoch.
    open spec fn view(&self) -> int {
        self.secs * NANOS_PER_SEC + self.nanos
    }
}

impl View for Span {
    type V = int;

    /// The length in nanoseconds.
    open spec fn view(&self) -> int {
        self.secs * NANOS_PER_SEC + self.nanos
    }
}

impl Instant {
    /// The instant `nanos` nanoseconds after the second `secs` of the epoch.
    pub fn new(secs: i64, nanos: u32) -> (instant: Instant)
        ensures
            instant == (Instant { secs, nanos }),
    {
        Instant { secs, nanos }
    }

    /// Nanoseconds since the Unix epoch, as one number.
    pub fn total_nanos(&self) -> (total: i128)
        ensures
            total == self@,
    {
        (self.secs as i128) * NANOS_PER_SEC + (self.nanos as i128)
    }

    /// The instant that lies `total` nanoseconds after the epoch, with less
    /// than a second in its nanosecond part; `None` when the seconds do not
    /// fit the field.
    pub fn from_total_nanos(total: i128) -> (instant: Option<Instant>)
        ensures
            instant is Some <==> i64::MIN * NANOS_PER_SEC <= total < (i64::MAX + 1) * NANOS_PER_SEC,
            instant matches Some(at) ==> at@ == total && at.nanos < NANOS_PER_SEC,
    {
        let lowest: i128 = (i64::MIN as i128) * NANOS_PER_SEC;
        let highest: i128 = (i64::MAX as i128) * NANOS_PER_SEC + (NANOS_PER_SEC - 1);
        if total < lowest || total > highest {
            return None;
        }
        let shifted: i128 = total - lowest;
        let secs_up: i128 = shifted / NANOS_PER_SEC;
        let nanos: i128 = shifted % NANOS_PER_SEC;
        let secs: i128 = secs_up + (i64::MIN as i128);
        Some(Instant { secs: secs as i64, nanos: nanos as u32 })
    }
}

impl Span {
    /// A span of `secs` whole seconds.
    pub fn seconds(secs: i64) -> (span: Span)
        ensures
            span == (Span { secs, nanos: 0 }),
    {
        Span { secs, nanos: 0 }
    }

    /// The length in nanoseconds, as one number.
    pub fn total_nanos(&self) -> (total: i128)
        ensures
            total == self@,
    {
        (self.secs as i128) * NANOS_PER_SEC + (self.nanos as i128)
    }
}

} // verus!
