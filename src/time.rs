//! Monotonic time: an instant and the duration between two instants, in microseconds.
use vstd::prelude::*;

verus! {

/// A point in time, in microseconds since an arbitrary epoch
#[derive(Debug, Clone, Copy, PartialEq, Eq, Structural)]
pub struct Instant {
    pub micros: u64,
}

/// A length of time, in microseconds
#[derive(Debug, Clone, Copy, PartialEq, Eq, Structural)]
pub struct Duration {
    pub micros: u64,
}

impl Instant {
    /// The time elapsed from `earlier` to `self`, zero if `earlier` is later than `self`
    pub open spec fn spec_duration_since(self, earlier: Instant) -> u64 {
        if self.micros >= earlier.micros {
            (self.micros - earlier.micros) as u64
        } else {
            0
        }
    }

    /// Returns the time elapsed from `earlier` to `self`, or zero if `earlier` is later
    pub fn duration_since(self, earlier: Instant) -> (r: Duration)
        ensures
            r.micros == self.spec_duration_since(earlier),
    {
        Duration { micros: self.micros.saturating_sub(earlier.micros) }
    }

    /// The instant `d` after `self`, saturating at the largest representable instant
    pub open spec fn spec_add_duration(self, d: Duration) -> u64 {
        if self.micros + d.micros <= u64::MAX {
            (self.micros + d.micros) as u64
        } else {
            u64::MAX
        }
    }

    /// Returns the instant `d` after `self`, saturating at the largest representable instant
    pub fn add_duration(self, d: Duration) -> (r: Instant)
        ensures
            r.micros == self.spec_add_duration(d),
    {
        Instant { micros: self.micros.saturating_add(d.micros) }
    }
}

} // verus!
