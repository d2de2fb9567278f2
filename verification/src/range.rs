//! Ranges of UTF-16 code-unit offsets and directed selections.

use vstd::prelude::*;

verus! {

/// A half-open range of UTF-16 code-unit offsets into a view's visible text.
///
/// Offsets are always relative to the start of the view's text. A range is
/// well formed when `start <= end`.
#[derive(Clone, Copy, Debug, PartialEq, Eq, Structural)]
pub struct CodeUnitRange {
    /// Offset of the first code unit covered by the range.
    pub start: usize,
    /// Offset one past the last code unit covered by the range.
    pub end: usize,
}

impl CodeUnitRange {
    /// Well-formedness: the range does not end before it starts.
    pub open spec fn wf(self) -> bool {
        self.start <= self.end
    }

    /// Builds a range from its two endpoints.
    pub fn new(start: usize, end: usize) -> (r: CodeUnitRange)
        requires
            start <= end,
        ensures
            r.start == start,
            r.end == end,
            r.wf(),
    {
        CodeUnitRange { start, end }
    }

    /// The number of code units the range covers.
    pub fn len(&self) -> (n: usize)
        requires
            self.wf(),
        ensures
            n == self.end - self.start,
    {
        self.end - self.start
    }
}

/// A selection in UTF-16 code-unit coordinates, together with the direction
/// of the interactive (caret) end.
#[derive(Clone, Copy, Debug, PartialEq, Eq, Structural)]
pub struct UTF16Selection {
    /// The selected span; a caret is an empty span.
    pub range: CodeUnitRange,
    /// True when the caret end is at `range.start`, false when it is at
    /// `range.end`.
    pub reversed: bool,
}

impl UTF16Selection {
    /// Well-formedness of the underlying range.
    pub open spec fn wf(self) -> bool {
        self.range.wf()
    }

    /// Builds a selection from a range and a direction flag.
    pub fn new(range: CodeUnitRange, reversed: bool) -> (s: UTF16Selection)
        ensures
            s.range == range,
            s.reversed == reversed,
    {
        UTF16Selection { range, reversed }
    }
}

} // verus!
