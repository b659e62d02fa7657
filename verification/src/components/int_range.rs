//! An index into a half-open integer range, as user-interface controls keep
//! their selection.

use vstd::prelude::*;

verus! {

/// `index` limited to `start..end`: at least `start` and at most `end - 1`,
/// where `end - 1` wins when the range is empty.
pub open spec fn clamp_index(index: int, start: int, end: int) -> int {
    let lower = if index < start { start } else { index };
    if lower < end - 1 { lower } else { end - 1 }
}

/// A limited index lies in its range when the range is not empty, and
/// limiting it again changes nothing.
pub proof fn lemma_clamp_index(index: int, start: int, end: int)
    ensures
        start < end ==> start <= clamp_index(index, start, end) < end,
        clamp_index(clamp_index(index, start, end), start, end) == clamp_index(index, start, end),
        start <= index < end ==> clamp_index(index, start, end) == index,
{
}

/// An index together with the half-open range `start..end` it moves in.
#[derive(Debug, Copy, Clone, PartialEq, Eq, Structural)]
pub struct IntRangeComponent {
    index: i64,
    start: i64,
    end: i64,
}

impl IntRangeComponent {
    /// The current index.
    pub closed spec fn index(&self) -> i64 {
        self.index
    }

    /// The first index of the range.
    pub closed spec fn start(&self) -> i64 {
        self.start
    }

    /// One past the last index of the range.
    pub closed spec fn end(&self) -> i64 {
        self.end
    }

    /// An index with its range, taken as given.
    pub fn new(index: i64, start: i64, end: i64) -> (range: Self)
        ensures
            range.index() == index,
            range.start() == start,
            range.end() == end,
    {
        IntRangeComponent { index, start, end }
    }

    pub fn get_index(&self) -> (index: i64)
        ensures
            index == self.index(),
    {
        self.index
    }

    /// The range as its start and end.
    pub fn get_range(&self) -> (range: (i64, i64))
        ensures
            range == (self.start(), self.end()),
    {
        (self.start, self.end)
    }

    /// Replaces the range and keeps the index.
    pub fn set_range(&mut self, start: i64, end: i64)
        ensures
            final(self).index() == old(self).index(),
            final(self).start() == start,
            final(self).end() == end,
    {
        self.start = start;
        self.end = end;
    }

    /// Moves the index to `index` limited to the range. Computing the last
    /// index of a range ending at `i64::MIN` overflows, so that is not
    /// callable.
    pub fn set_index(&mut self, index: i64)
        requires
            old(self).end() > i64::MIN,
        ensures
            final(self).index() == clamp_index(index as int, old(self).start() as int, old(self).end() as int),
            final(self).start() == old(self).start(),
            final(self).end() == old(self).end(),
    {
        let lower = if index < self.start { self.start } else { index };
        self.index = if lower < self.end - 1 { lower } else { self.end - 1 };
    }
}

impl Default for IntRangeComponent {
    /// Index 0 in the empty range `0..0`.
    fn default() -> (range: Self)
        ensures
            range.index() == 0,
            range.start() == 0,
            range.end() == 0,
    {
        IntRangeComponent { index: 0, start: 0, end: 0 }
    }
}

} // verus!
