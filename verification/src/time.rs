use vstd::prelude::*;

verus! {

/// A point on a monotonic clock, in nanoseconds from an origin that the
/// caller fixes (for the monitor: the moment it started).
#[derive(Debug, Clone, Copy, PartialEq, Eq, Structural)]
pub struct Timestamp {
    pub nanos: u64,
}

/// Nanoseconds from `earlier` to `later`, or zero when `earlier` is the later one.
pub open spec fn nanos_between(later: Timestamp, earlier: Timestamp) -> u64 {
    if later.nanos >= earlier.nanos {
        (later.nanos - earlier.nanos) as u64
    } else {
        0
    }
}

impl Timestamp {
    /// Nanoseconds elapsed from `earlier` to `self`; zero when `earlier` is later.
    pub fn duration_since(&self, earlier: Timestamp) -> (d: u64)
        ensures
            d == nanos_between(*self, earlier),
    {
        if self.nanos >= earlier.nanos {
            self.nanos - earlier.nanos
        } else {
            0
        }
    }
}

/// The time between two stamps, added to the earlier one, gives the later
/// one; it is zero when the first stamp is not the later one.
pub proof fn law_nanos_between(later: Timestamp, earlier: Timestamp)
    ensures
        later.nanos >= earlier.nanos ==> nanos_between(later, earlier) + earlier.nanos == later.nanos,
        later.nanos < earlier.nanos ==> nanos_between(later, earlier) == 0,
{
}

} // verus!
