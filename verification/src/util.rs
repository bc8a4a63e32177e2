//! Small generic helpers on ordered values.

use std::ops::Range;
use vstd::prelude::*;
use vstd::std_specs::cmp::PartialOrdIs;
use vstd::std_specs::cmp::PartialOrdSpec;
use vstd::laws_cmp::obeys_cmp;

verus! {

/// `value` restricted to the interval from `min` to `max`: `min` where
/// `value` lies below it, else `max` where `value` lies above it, else `value`.
pub open spec fn clamped<T: PartialOrd>(value: T, min: T, max: T) -> T {
    if value.is_lt(&min) {
        min
    } else if value.is_gt(&max) {
        max
    } else {
        value
    }
}

/// Restrict a value to a certain interval.
pub fn clamp<T>(value: T, min: T, max: T) -> (r: T) where T: Copy + PartialOrd
    ensures
        T::obeys_partial_cmp_spec() ==> r == clamped(value, min, max),
        r == min || r == max || r == value,
{
    if value < min {
        min
    } else if value > max {
        max
    } else {
        value
    }
}

/// The greater of two values; the second where neither is greater.
pub open spec fn upper<T: PartialOrd>(x: T, y: T) -> T {
    if y.is_lt(&x) {
        x
    } else {
        y
    }
}

/// The lesser of two values; the first where neither is lesser.
pub open spec fn lower<T: PartialOrd>(x: T, y: T) -> T {
    if y.is_lt(&x) {
        y
    } else {
        x
    }
}

/// The intersection of two half-open ranges: from the higher of the two lower
/// bounds to the lower of the two upper bounds, or the empty range at the
/// higher lower bound where the two do not meet.
pub open spec fn intersected<T: PartialOrd>(a: Range<T>, b: Range<T>) -> Range<T> {
    let m = upper(a.start, b.start);
    let n = lower(a.end, b.end);
    if m.is_gt(&n) {
        Range { start: m, end: m }
    } else {
        Range { start: m, end: n }
    }
}

/// Intersects a range with another.
///
/// If the ranges do not intersect, an empty range (`start == end`) is returned, where `start` is
/// the highest lower bound between them.
pub fn range_intersect<T: Copy + PartialOrd + Ord>(a: Range<T>, b: Range<T>) -> (r: Range<T>)
    ensures
        obeys_cmp::<T>() ==> r == intersected(a, b),
{
    proof {
        reveal(vstd::laws_cmp::obeys_cmp_ord);
        reveal(vstd::laws_cmp::obeys_cmp_partial_ord);
        reveal(vstd::laws_cmp::obeys_partial_cmp_spec_properties);
    }
    let m = a.start.max(b.start);
    let n = a.end.min(b.end);

    if m > n {
        Range { start: m, end: m }
    } else {
        Range { start: m, end: n }
    }
}

/// Intersects two ranges of offsets: the result starts at the higher of
/// the two starts; it ends at the lower of the two ends, or at its own start
/// where that is higher.
pub fn offsets_intersect(a: Range<usize>, b: Range<usize>) -> (r: Range<usize>)
    ensures
        r.start == (if a.start < b.start {
            b.start
        } else {
            a.start
        }),
        r.end == ({
            let n = if b.end < a.end {
                b.end
            } else {
                a.end
            };
            if r.start > n {
                r.start
            } else {
                n
            }
        }),
{
    broadcast use vstd::laws_cmp::group_laws_cmp;

    range_intersect(a, b)
}

} // verus!
