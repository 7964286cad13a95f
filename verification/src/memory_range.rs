//! Ranges of guest memory.

use vstd::prelude::*;

verus! {

/// A range of guest physical addresses.
#[derive(Copy, Clone, Debug)]
pub struct MemoryRange {
    start: u64,
    end: u64,
}

impl MemoryRange {
    /// The range does not end before it starts.
    #[verifier::type_invariant]
    closed spec fn wf(self) -> bool {
        self.start <= self.end
    }

    /// The first address of the range.
    pub closed spec fn spec_start(self) -> u64 {
        self.start
    }

    /// The first address behind the range.
    pub closed spec fn spec_end(self) -> u64 {
        self.end
    }

    /// Whether no address lies in the range.
    pub open spec fn empty(self) -> bool {
        self.spec_start() == self.spec_end()
    }

    /// Whether no address lies in both ranges.
    pub open spec fn disjoint(self, other: MemoryRange) -> bool {
        self.spec_end() <= other.spec_start() || other.spec_end() <= self.spec_start()
    }

    /// The range from `start` up to, but not including, `end`.
    pub fn new(start: u64, end: u64) -> (range: MemoryRange)
        requires
            start <= end,
        ensures
            range.spec_start() == start,
            range.spec_end() == end,
    {
        MemoryRange { start, end }
    }

    /// The first address of the range.
    pub fn start(&self) -> (start: u64)
        ensures
            start == self.spec_start(),
    {
        self.start
    }

    /// The first address behind the range.
    pub fn end(&self) -> (end: u64)
        ensures
            end == self.spec_end(),
    {
        self.end
    }

    /// The number of bytes in the range.
    pub fn len(&self) -> (len: u64)
        ensures
            len == self.spec_end() - self.spec_start(),
    {
        proof {
            use_type_invariant(self);
        }
        self.end - self.start
    }

    /// Whether no address lies in the range.
    pub fn is_empty(&self) -> (empty: bool)
        ensures
            empty == self.empty(),
            empty <==> self.spec_start() == self.spec_end(),
    {
        self.start == self.end
    }
}

/// Law: a range is empty exactly if it ends where it starts, and two ranges are
/// disjoint exactly if one ends before the other starts.
pub proof fn lemma_empty_and_disjoint(range: MemoryRange, other: MemoryRange)
    ensures
        range.empty() <==> range.spec_start() == range.spec_end(),
        range.disjoint(other) <==> range.spec_end() <= other.spec_start() || other.spec_end()
            <= range.spec_start(),
{
}

} // verus!
