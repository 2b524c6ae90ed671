//! Margins: rules that turn an origin into an address window.
use crate::util::within;
use std::ops::Range;
use vstd::prelude::*;

verus! {

/// The address nearest to `a`: `a` itself where it is one, else the end of the
/// address space that `a` lies beyond.
pub open spec fn clamp(a: int) -> usize {
    if a < 0 {
        0
    } else if a > usize::MAX {
        usize::MAX
    } else {
        a as usize
    }
}

/// The distance between two addresses.
pub open spec fn distance(a: usize, b: usize) -> int {
    if a <= b {
        b - a
    } else {
        a - b
    }
}

/// Represents a margin relative to an origin.
pub trait Margin {
    /// The window that the margin spans around `origin`. Every margin states
    /// its own.
    open spec fn window(&self, origin: usize) -> Range<usize> {
        arbitrary()
    }

    /// Returns the margin as an address range.
    fn as_range(&self, origin: usize) -> (r: Range<usize>)
        ensures
            r == self.window(origin),
    ;
}

/// Moves `origin` by the signed `offset`, stopping at either end of the address space.
pub fn displace(origin: usize, offset: isize) -> (r: usize)
    ensures
        r == clamp(origin + offset),
{
    if offset < 0 {
        let magnitude: usize = if offset == isize::MIN {
            isize::MAX as usize + 1
        } else {
            (-offset) as usize
        };
        origin.saturating_sub(magnitude)
    } else {
        origin.saturating_add(offset as usize)
    }
}

/// A signed interval `[start, end)` of offsets from the origin: a negative
/// bound lies below the origin, any other at or above it.
impl Margin for Range<isize> {
    open spec fn window(&self, origin: usize) -> Range<usize> {
        Range { start: clamp(origin + self.start), end: clamp(origin + self.end) }
    }

    fn as_range(&self, origin: usize) -> (r: Range<usize>) {
        let lower = displace(origin, self.start);
        let upper = displace(origin, self.end);
        lower..upper
    }
}

/// An unsigned distance `d`, spanning `[origin - d, origin + d)`.
impl Margin for usize {
    open spec fn window(&self, origin: usize) -> Range<usize> {
        Range { start: clamp(origin - *self), end: clamp(origin + *self) }
    }

    fn as_range(&self, origin: usize) -> (r: Range<usize>) {
        let lower = origin.saturating_sub(*self);
        let upper = origin.saturating_add(*self);
        lower..upper
    }
}

/// A distance around the origin 0 gives a window that starts at 0.
pub proof fn lemma_distance_from_zero_starts_at_zero(d: usize)
    requires
        d > 0,
    ensures
        d.window(0).start == 0,
{
}

/// A signed margin whose lower bound reaches further down than the origin is
/// high gives a window that starts at 0.
pub proof fn lemma_deep_lower_bound_starts_at_zero(margin: Range<isize>, origin: usize)
    requires
        margin.start < 0,
        -margin.start > origin,
    ensures
        margin.window(origin).start == 0,
{
}

/// Every address in the window of a distance `d` lies no further than `d` from
/// the origin.
pub proof fn lemma_window_bounds_distance(d: usize, origin: usize, address: usize)
    requires
        within(d.window(origin), address),
    ensures
        distance(address, origin) <= d,
{
}

/// Every address in the window of a signed margin lies between its two bounds
/// as offsets from the origin.
pub proof fn lemma_window_bounds_offset(margin: Range<isize>, origin: usize, address: usize)
    requires
        within(margin.window(origin), address),
    ensures
        margin.start <= address - origin < margin.end,
{
}

/// A distance spans a window that holds its origin, unless the distance is 0
/// or the origin is the last address.
pub proof fn lemma_window_holds_origin(d: usize, origin: usize)
    ensures
        within(d.window(origin), origin) <==> d > 0 && origin < usize::MAX,
{
}

} // verus!
