use vstd::prelude::*;

verus! {

/// A half-open byte range `[lo, hi)` into one source text.  Every diagnostic
/// and every declared symbol is anchored to one of these.
#[derive(Clone, Copy, PartialEq, Eq, Structural, Debug)]
pub struct Span {
    pub lo: usize,
    pub hi: usize,
}

impl Span {
    /// The span is ordered and lies within a source text of `len` bytes.
    pub open spec fn wf(self, len: int) -> bool {
        self.lo <= self.hi <= len
    }

    pub fn new(lo: usize, hi: usize) -> (s: Span)
        ensures
            s == (Span { lo, hi }),
    {
        Span { lo, hi }
    }
}

} // verus!
