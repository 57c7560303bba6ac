//! The process-wide hit counter, as an owned value.
//!
//! The hosting program keeps one `HitCounter` behind a mutual-exclusion lock;
//! each critical section is one call of `increment_and_read`, so concurrent
//! increments are applied one after the other.
use vstd::prelude::*;

verus! {

/// Counts completed increments, starting from zero.
pub struct HitCounter {
    hits: u64,
}

impl HitCounter {
    /// The number of increments completed so far.
    pub closed spec fn count(&self) -> nat {
        self.hits as nat
    }

    /// Whether one more increment fits in the counter's range.
    pub open spec fn can_increment_spec(&self) -> bool {
        self.count() < u64::MAX
    }

    /// A counter that has seen no increment.
    pub fn new() -> (r: HitCounter)
        ensures
            r.count() == 0,
    {
        HitCounter { hits: 0 }
    }

    /// The number of increments completed so far.
    pub fn hits(&self) -> (r: u64)
        ensures
            r == self.count(),
    {
        self.hits
    }

    /// Whether one more increment fits in the counter's range.
    pub fn can_increment(&self) -> (r: bool)
        ensures
            r == self.can_increment_spec(),
    {
        self.hits < u64::MAX
    }

    /// Counts one more hit and returns the number of increments completed,
    /// this one included.
    pub fn increment_and_read(&mut self) -> (r: u64)
        requires
            old(self).can_increment_spec(),
        ensures
            final(self).count() == old(self).count() + 1,
            r == final(self).count(),
    {
        self.hits = self.hits + 1;
        self.hits
    }
}

} // verus!
