//! Files, positions and ranges: the coordinates every edit is expressed in.
//!
//! A file is named by an opaque numeric identifier handed out by the source
//! tree; a range is a pair of offsets into one file's text, counted in
//! characters.

use vstd::math::{max, min};
use vstd::prelude::*;

verus! {

/// Identifier of one file in the source tree.
#[derive(Clone, Copy, PartialEq, Eq, Structural, Debug)]
pub struct FileId(pub u32);

/// A half-open span `[start, end)` of one file's text.
#[derive(Clone, Copy, PartialEq, Eq, Structural, Debug)]
pub struct TextRange {
    pub start: u32,
    pub end: u32,
}

impl TextRange {
    /// A range never runs backwards.
    pub open spec fn wf(self) -> bool {
        self.start <= self.end
    }

    /// Whether `self` and `other` have a common point, their boundaries
    /// included; this is how reference ranges are matched against a
    /// parameter declaration, so a reference merely touching the
    /// declaration counts as belonging to it.
    pub open spec fn spec_intersects(self, other: TextRange) -> bool {
        max(self.start as int, other.start as int) <= min(self.end as int, other.end as int)
    }

    pub fn new(start: u32, end: u32) -> (r: TextRange)
        requires
            start <= end,
        ensures
            r.start == start,
            r.end == end,
            r.wf(),
    {
        TextRange { start, end }
    }

    /// The empty range sitting at `offset`.
    pub fn empty(offset: u32) -> (r: TextRange)
        ensures
            r.start == offset,
            r.end == offset,
            r.wf(),
    {
        TextRange { start: offset, end: offset }
    }

    pub fn intersects(self, other: TextRange) -> (r: bool)
        ensures
            r == self.spec_intersects(other),
    {
        let lo = if self.start >= other.start { self.start } else { other.start };
        let hi = if self.end <= other.end { self.end } else { other.end };
        lo <= hi
    }

    /// Whether `offset` lies within the range, the end boundary included.
    pub fn contains_inclusive(self, offset: u32) -> (r: bool)
        ensures
            r == (self.start <= offset && offset <= self.end),
    {
        self.start <= offset && offset <= self.end
    }

    /// Whether `other` lies entirely within `self`.
    pub open spec fn spec_covers(self, other: TextRange) -> bool {
        self.start <= other.start && other.end <= self.end
    }

    pub fn covers(self, other: TextRange) -> (r: bool)
        ensures
            r == self.spec_covers(other),
    {
        self.start <= other.start && other.end <= self.end
    }
}

/// A cursor position: a file and a character offset into its text.
#[derive(Clone, Copy, PartialEq, Eq, Structural, Debug)]
pub struct FilePosition {
    pub file_id: FileId,
    pub offset: u32,
}

/// A payload paired with the primary range to report back to the caller,
/// used to re-place the cursor once the change has been applied.
#[derive(Debug)]
pub struct RangeInfo<T> {
    pub range: TextRange,
    pub info: T,
}

impl<T> RangeInfo<T> {
    pub fn new(range: TextRange, info: T) -> (r: RangeInfo<T>)
        ensures
            r.range == range,
            r.info == info,
    {
        RangeInfo { range, info }
    }
}

} // verus!
