//! Index ranges of a buffer, and when two of them have an index in common.

use vstd::prelude::*;

verus! {

/// A run of `len` consecutive element indices that begins at `start`.
#[derive(Clone, Copy, Debug, PartialEq, Eq, Structural)]
pub struct Region {
    /// The first index of the region.
    pub start: usize,
    /// The number of indices of the region.
    pub len: usize,
}

impl Region {
    /// The index one past the last index of the region.
    pub open spec fn end(self) -> int {
        self.start + self.len
    }

    /// Whether index `i` belongs to the region.
    pub open spec fn contains(self, i: int) -> bool {
        self.start <= i < self.end()
    }

    /// Whether the two regions have an index in common.
    pub open spec fn overlaps(self, other: Region) -> bool {
        exists|i: int| self.contains(i) && other.contains(i)
    }

    /// Whether the region lies inside a buffer of `length` elements.
    pub open spec fn within(self, length: int) -> bool {
        self.end() <= length
    }

    /// The region of `len` indices from `start` on.
    pub fn new(start: usize, len: usize) -> (r: Region)
        ensures
            r.start == start,
            r.len == len,
    {
        Region { start, len }
    }

    /// Tells whether the two regions have an index in common.
    pub fn intersects(&self, other: &Region) -> (b: bool)
        ensures
            b == self.overlaps(*other),
    {
        proof {
            lemma_overlap_bounds(*self, *other);
        }
        if self.len == 0 || other.len == 0 {
            false
        } else if self.start <= other.start {
            other.start - self.start < self.len
        } else {
            self.start - other.start < other.len
        }
    }

    /// Tells whether the region lies inside a buffer of `length` elements.
    pub fn fits(&self, length: usize) -> (b: bool)
        ensures
            b == self.within(length as int),
    {
        self.len <= length && self.start <= length - self.len
    }
}

/// Two regions overlap exactly when the later of their starts lies before the
/// earlier of their ends.
pub proof fn lemma_overlap_bounds(a: Region, b: Region)
    ensures
        a.overlaps(b) <==> (a.start < b.end() && b.start < a.end() && a.len > 0 && b.len > 0),
{
    if a.start < b.end() && b.start < a.end() && a.len > 0 && b.len > 0 {
        let i: int = if a.start <= b.start { b.start as int } else { a.start as int };
        assert(a.contains(i) && b.contains(i));
    }
}

/// Overlap does not depend on the order in which the two regions are named.
pub proof fn lemma_overlap_symmetric(a: Region, b: Region)
    ensures
        a.overlaps(b) == b.overlaps(a),
{
    lemma_overlap_bounds(a, b);
    lemma_overlap_bounds(b, a);
}

/// An empty region overlaps nothing, and a region with an index overlaps itself.
pub proof fn lemma_overlap_self(a: Region, b: Region)
    ensures
        a.len == 0 ==> !a.overlaps(b),
        a.overlaps(a) <==> a.len > 0,
{
    lemma_overlap_bounds(a, b);
    lemma_overlap_bounds(a, a);
}

} // verus!
