//! Half-open containment for ranges of ordered scalars.
use std::ops::Range;
use vstd::prelude::*;
use vstd::std_specs::cmp::{PartialOrdIs, PartialOrdSpec};

verus! {

/// Trait for ranges containing values.
pub trait RangeContains<Idx: PartialOrd<Idx>> {
    /// Whether `item` lies inside the range.
    spec fn holds(&self, item: Idx) -> bool;

    /// Tests whether `item` lies inside the range.
    fn contains_(&self, item: Idx) -> (r: bool)
        ensures
            Idx::obeys_partial_cmp_spec() ==> r == self.holds(item),
    ;
}

impl<Idx: PartialOrd<Idx>> RangeContains<Idx> for Range<Idx> {
    /// A half-open range holds the items that `start` does not exceed and that `end` does.
    open spec fn holds(&self, item: Idx) -> bool {
        self.start.is_le(&item) && self.end.is_gt(&item)
    }

    fn contains_(&self, item: Idx) -> (r: bool) {
        self.start <= item && self.end > item
    }
}

/// Whether the address `item` lies inside the window `[start, end)`.
pub open spec fn within(window: Range<usize>, item: usize) -> bool {
    window.start <= item < window.end
}

/// On addresses, containment is the plain comparison with both bounds.
pub proof fn lemma_holds_is_within(window: Range<usize>, item: usize)
    ensures
        window.holds(item) == within(window, item),
{
}

} // verus!
