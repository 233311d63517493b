use vstd::prelude::*;

verus! {

/// A range of character offsets in the source text.
#[derive(Clone, Copy, Debug, PartialEq, Eq, Structural)]
pub struct SourceSpan {
    pub start: usize,
    pub end: usize,
}

impl SourceSpan {
    pub fn new(start: usize, end: usize) -> (r: SourceSpan)
        ensures
            r.start == start,
            r.end == end,
    {
        SourceSpan { start, end }
    }

    pub open spec fn spec_empty() -> SourceSpan {
        SourceSpan { start: 0, end: 0 }
    }

    /// The span of text that was not read from a source file.
    pub fn empty() -> (r: SourceSpan)
        ensures
            r == SourceSpan::spec_empty(),
    {
        SourceSpan { start: 0, end: 0 }
    }
}

} // verus!
