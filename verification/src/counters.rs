//! Counting of heap allocations.
//!
//! [`CountingAllocator`] is the bookkeeping core of an allocation
//! interception layer: it records how many allocations have been requested
//! and how many bytes they asked for, as two monotonically non-decreasing
//! counters. A program that wants to intercept real allocations wraps its
//! global allocator around this bookkeeping outside of this crate; the
//! measurement code here only ever reads totals through [`StatsSource`].

use vstd::prelude::*;

verus! {

/// A point-in-time record of allocation totals: how many allocations were
/// made and how many bytes they requested in all.
///
/// Two records taken at different points can be subtracted field-wise with
/// [`MemStats::sub`] to obtain the allocations that happened in between.
#[derive(Clone, Copy, Debug, PartialEq, Eq, Structural)]
pub struct MemStats {
    /// Number of allocations.
    pub alloc_count: usize,
    /// Number of bytes allocated.
    pub allocated: usize,
}

/// Field-wise difference `a - b`, saturating at zero in each field.
pub open spec fn spec_sub(a: MemStats, b: MemStats) -> MemStats {
    MemStats {
        alloc_count: if a.alloc_count >= b.alloc_count {
            (a.alloc_count - b.alloc_count) as usize
        } else {
            0
        },
        allocated: if a.allocated >= b.allocated {
            (a.allocated - b.allocated) as usize
        } else {
            0
        },
    }
}

/// Field-wise floor division of `a` by `n`.
pub open spec fn spec_div(a: MemStats, n: int) -> MemStats {
    MemStats {
        alloc_count: (a.alloc_count as int / n) as usize,
        allocated: (a.allocated as int / n) as usize,
    }
}

/// `a + b` capped at `usize::MAX`.
pub open spec fn sat_add_usize(a: int, b: int) -> int {
    if a + b <= usize::MAX {
        a + b
    } else {
        usize::MAX as int
    }
}

impl MemStats {
    /// The all-zero record: no allocations seen.
    pub fn zero() -> (s: MemStats)
        ensures
            s == (MemStats { alloc_count: 0, allocated: 0 }),
    {
        MemStats { alloc_count: 0, allocated: 0 }
    }

    /// Field-wise difference `self - rhs`.
    ///
    /// A counter that appears to have gone backwards (which cannot happen
    /// between two reads of the same monotonic counter unless it wrapped)
    /// yields zero in that field rather than a wrapped value.
    pub fn sub(&self, rhs: &MemStats) -> (r: MemStats)
        ensures
            r == spec_sub(*self, *rhs),
    {
        MemStats {
            alloc_count: if self.alloc_count >= rhs.alloc_count {
                self.alloc_count - rhs.alloc_count
            } else {
                0
            },
            allocated: if self.allocated >= rhs.allocated {
                self.allocated - rhs.allocated
            } else {
                0
            },
        }
    }

    /// Field-wise floor division by a positive repetition count.
    pub fn div(&self, n: usize) -> (r: MemStats)
        requires
            n >= 1,
        ensures
            r == spec_div(*self, n as int),
    {
        MemStats { alloc_count: self.alloc_count / n, allocated: self.allocated / n }
    }
}

/// Snapshot-difference law: whenever `b` is at least `a` in every field,
/// the difference `b - a` is the exact field-wise subtraction, with no
/// rounding and no saturation.
pub proof fn lemma_sub_exact(a: MemStats, b: MemStats)
    requires
        a.alloc_count <= b.alloc_count,
        a.allocated <= b.allocated,
    ensures
        spec_sub(b, a).alloc_count == b.alloc_count - a.alloc_count,
        spec_sub(b, a).allocated == b.allocated - a.allocated,
{
}

/// A readable source of allocation totals.
///
/// Reading goes through `&self`, so a read can never change what a source
/// of this crate holds; a live source backed by a process-wide allocator
/// may nevertheless return a larger total on every call, so nothing is
/// promised about the value that comes back.
pub trait StatsSource {
    /// Read the current totals as a snapshot.
    fn snapshot(&self) -> MemStats;
}

/// The bookkeeping core of an allocation interception layer.
///
/// It holds the two running totals and offers exactly one way to advance
/// them: recording one successful allocation. The totals never decrease;
/// deallocations are not recorded, by design — the measured quantity is
/// "allocations performed", not live memory.
pub struct CountingAllocator {
    stats: MemStats,
}

impl CountingAllocator {
    /// The totals held right now.
    pub closed spec fn counters(&self) -> MemStats {
        self.stats
    }

    /// Creates a counter with both totals at zero.
    pub fn new() -> (c: CountingAllocator)
        ensures
            c.counters() == (MemStats { alloc_count: 0, allocated: 0 }),
    {
        CountingAllocator { stats: MemStats { alloc_count: 0, allocated: 0 } }
    }

    /// Returns the statistics about memory allocations recorded so far.
    pub fn stats(&self) -> (s: &MemStats)
        ensures
            *s == self.counters(),
    {
        &self.stats
    }

    /// Record one successful allocation of `size` bytes: the allocation
    /// count rises by one and the byte total by `size`, each capped at
    /// `usize::MAX` rather than wrapping.
    pub fn record_alloc(&mut self, size: usize)
        ensures
            final(self).counters().alloc_count == sat_add_usize(old(self).counters().alloc_count as int, 1),
            final(self).counters().allocated == sat_add_usize(old(self).counters().allocated as int, size as int),
    {
        if self.stats.alloc_count < usize::MAX {
            self.stats.alloc_count = self.stats.alloc_count + 1;
        }
        if self.stats.allocated <= usize::MAX - size {
            self.stats.allocated = self.stats.allocated + size;
        } else {
            self.stats.allocated = usize::MAX;
        }
    }
}

impl StatsSource for CountingAllocator {
    /// Reading this sequential counter returns exactly the totals it
    /// holds: unlike a live, concurrently advancing source, it can and
    /// does promise its current value.
    fn snapshot(&self) -> (s: MemStats)
        ensures
            s == self.counters(),
    {
        self.stats
    }
}

} // verus!
