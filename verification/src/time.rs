//! Instants and durations.

use std::time::Duration;
use vstd::prelude::*;

verus! {

/// The length of a `std::time::Duration` in nanoseconds.
pub uninterp spec fn duration_nanos(duration: Duration) -> nat;

/// `Duration::as_nanos`: the whole length of the duration, in nanoseconds.
pub assume_specification[ Duration::as_nanos ](duration: &Duration) -> (nanos: u128)
    ensures
        nanos == duration_nanos(*duration),
;

/// `Duration::as_micros`: the length of the duration in microseconds, rounded down.
pub assume_specification[ Duration::as_micros ](duration: &Duration) -> (micros: u128)
    ensures
        micros == duration_nanos(*duration) / 1_000,
;

/// `Duration::from_nanos`: a duration of exactly that many nanoseconds.
pub assume_specification[ Duration::from_nanos ](nanos: u64) -> (duration: Duration)
    ensures
        duration_nanos(duration) == nanos,
;

/// `Duration::from_micros`: a duration of exactly that many microseconds.
pub assume_specification[ Duration::from_micros ](micros: u64) -> (duration: Duration)
    ensures
        duration_nanos(duration) == micros * 1_000,
;

/// A reading of a monotonic clock, in nanoseconds since the origin of that clock.
#[derive(Clone, Copy, Debug, PartialEq, Eq, Structural)]
pub struct Timestamp {
    pub nanos: u64,
}

impl Timestamp {
    /// The nanoseconds that lie between `earlier` and `self`; none if `earlier` is the later one.
    pub open spec fn spec_since(self, earlier: Timestamp) -> nat {
        if self.nanos >= earlier.nanos {
            (self.nanos - earlier.nanos) as nat
        } else {
            0
        }
    }

    /// The nanoseconds that lie between `earlier` and `self`; none if `earlier` is the later one.
    pub fn since(self, earlier: Timestamp) -> (nanos: u64)
        ensures
            nanos == self.spec_since(earlier),
    {
        if self.nanos >= earlier.nanos {
            self.nanos - earlier.nanos
        } else {
            0
        }
    }
}

/// The time between two moments is what has to be added to the earlier one to reach the later one; from
/// the later one to the earlier one none passes.
pub proof fn time_passes_forwards(earlier: Timestamp, later: Timestamp)
    ensures
        earlier.nanos <= later.nanos ==> earlier.nanos + later.spec_since(earlier) == later.nanos,
        earlier.nanos > later.nanos ==> later.spec_since(earlier) == 0,
{
}

} // verus!
