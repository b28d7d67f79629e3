use vstd::prelude::*;
use std::ops::Range;

verus! {

/// `range` moved right by `offset`.
pub fn offset_range(range: Range<usize>, offset: usize) -> (r: Range<usize>)
    requires
        range.start + offset <= usize::MAX,
        range.end + offset <= usize::MAX,
    ensures
        r.start == range.start + offset,
        r.end == range.end + offset,
{
    Range { start: range.start + offset, end: range.end + offset }
}

} // verus!
