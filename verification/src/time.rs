//! Monotonic time: instants and spans, counted in microseconds since boot.
//!
//! The hardware counter is monotonic and 64 bits wide, so overflow is only a
//! theoretical concern; additions saturate at the counter's maximum rather
//! than wrapping, which keeps the ordering of instants total.

use vstd::prelude::*;

verus! {

/// Microseconds in one millisecond.
pub const MICROS_PER_MILLI: u64 = 1000;

/// A monotonic point in time, counted in microseconds since boot.
#[derive(Clone, Copy, PartialEq, Eq, Structural, Debug)]
pub struct Instant {
    pub micros: u64,
}

/// A span between two instants, counted in microseconds.
#[derive(Clone, Copy, PartialEq, Eq, Structural, Debug)]
pub struct Duration {
    pub micros: u64,
}

impl Duration {
    /// The number of whole milliseconds in this span.
    pub fn to_millis(self) -> (r: u64)
        ensures
            r == self.micros / 1000,
    {
        self.micros / MICROS_PER_MILLI
    }

    /// A span of `ms` milliseconds; saturates at the counter's maximum.
    pub fn from_millis(ms: u64) -> (r: Duration)
        ensures
            ms <= u64::MAX / 1000 ==> r.micros == ms * 1000,
            ms > u64::MAX / 1000 ==> r.micros == u64::MAX,
    {
        if ms <= u64::MAX / MICROS_PER_MILLI {
            Duration { micros: ms * MICROS_PER_MILLI }
        } else {
            Duration { micros: u64::MAX }
        }
    }
}

impl Instant {
    /// The zero instant: the moment the device booted.
    pub fn boot() -> (r: Instant)
        ensures
            r.micros == 0,
    {
        Instant { micros: 0 }
    }

    /// This instant shifted `d` later; saturates at the counter's maximum.
    pub fn saturating_add(self, d: Duration) -> (r: Instant)
        ensures
            self.micros + d.micros <= u64::MAX ==> r.micros == self.micros + d.micros,
            self.micros + d.micros > u64::MAX ==> r.micros == u64::MAX,
    {
        if self.micros <= u64::MAX - d.micros {
            Instant { micros: self.micros + d.micros }
        } else {
            Instant { micros: u64::MAX }
        }
    }

    /// The span from `earlier` up to this instant.
    pub fn duration_since(self, earlier: Instant) -> (r: Duration)
        requires
            earlier.micros <= self.micros,
        ensures
            r.micros == self.micros - earlier.micros,
    {
        Duration { micros: self.micros - earlier.micros }
    }

    /// Whether this instant is strictly before `other`.
    pub fn is_before(self, other: Instant) -> (r: bool)
        ensures
            r == (self.micros < other.micros),
    {
        self.micros < other.micros
    }

    /// The earlier of two instants.
    pub fn earliest(self, other: Instant) -> (r: Instant)
        ensures
            r.micros == if self.micros <= other.micros { self.micros } else { other.micros },
    {
        if self.micros <= other.micros {
            self
        } else {
            other
        }
    }
}

} // verus!
