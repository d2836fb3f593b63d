//! One-dimensional ranges with an explicit empty sentinel.

use vstd::prelude::*;

use crate::fixed::sat64;
use crate::fixed::sat_add;
use crate::fixed::sat_sub;

verus! {

/// A closed range of one dimension, in fixed-point scalars.
///
/// `min <= max` for a non-empty range; `min > max` marks the empty range
/// (the canonical empty value is `{0, -1}`).
#[derive(Debug, Clone, Copy, PartialEq, Eq, Structural)]
pub struct Range {
    /// Minimum coordinate of the range
    pub min: i64,
    /// Maximum coordinate of the range
    pub max: i64,
}

/// Whether a value is far enough from the `i64` extremes that the saturating
/// arithmetic of the range operations is exact.
pub open spec fn fits(x: int) -> bool {
    i64::MIN <= x <= i64::MAX
}

/// A range holds a value when the value lies between its bounds; an empty
/// range holds nothing.
pub open spec fn range_contains(r: Range, v: int) -> bool {
    r.min <= v <= r.max
}

/// The union of two ranges: the least range holding both, with an empty
/// operand acting as the neutral element.
pub open spec fn union_of(a: Range, b: Range) -> Range {
    if b.min > b.max {
        a
    } else if a.min > a.max {
        b
    } else {
        Range {
            min: if b.min < a.min {
                b.min
            } else {
                a.min
            },
            max: if b.max > a.max {
                b.max
            } else {
                a.max
            },
        }
    }
}

/// The intersection of two ranges, with an empty operand absorbing.
pub open spec fn intersect_of(a: Range, b: Range) -> Range {
    if b.min > b.max {
        b
    } else if a.min > a.max {
        a
    } else {
        Range {
            min: if b.min > a.min {
                b.min
            } else {
                a.min
            },
            max: if b.max < a.max {
                b.max
            } else {
                a.max
            },
        }
    }
}

/// A range grown to hold one more value; growing the empty range gives the
/// point range at that value.
pub open spec fn extend_of(a: Range, x: i64) -> Range {
    if a.min > a.max {
        Range { min: x, max: x }
    } else {
        Range {
            min: if x < a.min {
                x
            } else {
                a.min
            },
            max: if x > a.max {
                x
            } else {
                a.max
            },
        }
    }
}

/// A range widened by `v` on both sides; a no-op on the empty range.
pub open spec fn enlarge_of(a: Range, v: i64) -> Range {
    if a.min > a.max {
        a
    } else {
        Range { min: sat64(a.min - v) as i64, max: sat64(a.max + v) as i64 }
    }
}

/// A range narrowed by `v` on both sides; a no-op on the empty range.
pub open spec fn reduce_of(a: Range, v: i64) -> Range {
    if a.min > a.max {
        a
    } else {
        Range { min: sat64(a.min + v) as i64, max: sat64(a.max - v) as i64 }
    }
}

impl Range {
    /// Create a new range from `(min, max)`.
    #[inline]
    pub fn new(min: i64, max: i64) -> (r: Range)
        ensures
            r == (Range { min, max }),
    {
        Range { min, max }
    }

    /// Create a new empty range.
    #[inline]
    pub fn none() -> (r: Range)
        ensures
            r == (Range { min: 0i64, max: -1i64 }),
            r.min > r.max,
    {
        Range { min: 0, max: -1 }
    }

    /// Return true if the range is empty.
    #[inline]
    pub fn is_none(&self) -> (b: bool)
        ensures
            b == (self.min > self.max),
    {
        self.min > self.max
    }

    /// The range spanned by two values, in either order.
    pub fn of_pts(a: i64, b: i64) -> (r: Range)
        ensures
            r.min <= r.max,
            range_contains(r, a as int) && range_contains(r, b as int),
            r.min == a || r.min == b,
            r.max == a || r.max == b,
    {
        if a < b {
            Range::new(a, b)
        } else {
            Range::new(b, a)
        }
    }

    /// The size of the range; the empty range has size zero.
    pub fn size(&self) -> (s: i64)
        ensures
            s == if self.min > self.max {
                0int
            } else {
                sat64(self.max - self.min)
            },
    {
        if self.is_none() {
            0
        } else {
            sat_sub(self.max, self.min)
        }
    }

    /// The center of the range, rounded toward minus infinity.
    pub fn center(&self) -> (c: i64)
        ensures
            c == (self.min + self.max) / 2,
    {
        let s: i128 = self.min as i128 + self.max as i128;
        if s >= 0 {
            ((s as u128) / 2) as i64
        } else {
            let m: u128 = ((-s) as u128 + 1) / 2;
            proof {
                let t = self.min + self.max;
                let e = (-t + 1) % 2;
                vstd::arithmetic::div_mod::lemma_fundamental_div_mod(-t + 1, 2);
                vstd::arithmetic::div_mod::lemma_fundamental_div_mod_converse(
                    t,
                    2,
                    -(m as int),
                    1 - e,
                );
            }
            (-(m as i128)) as i64
        }
    }

    /// Grow the range to hold one more value.
    pub fn extend_to(self, x: i64) -> (r: Range)
        ensures
            r == extend_of(self, x),
    {
        let mut s = self;
        if s.min > s.max {
            s.min = x;
            s.max = x;
        } else {
            if x < s.min {
                s.min = x;
            }
            if x > s.max {
                s.max = x;
            }
        }
        s
    }

    /// Enlarge a non-empty range by an amount on each side.
    pub fn enlarge(self, value: i64) -> (r: Range)
        ensures
            r == enlarge_of(self, value),
    {
        let mut s = self;
        if !(s.min > s.max) {
            s.min = sat_sub(s.min, value);
            s.max = sat_add(s.max, value);
        }
        s
    }

    /// Reduce a non-empty range by an amount on each side.
    pub fn reduce(self, value: i64) -> (r: Range)
        ensures
            r == reduce_of(self, value),
    {
        let mut s = self;
        if !(s.min > s.max) {
            s.min = sat_add(s.min, value);
            s.max = sat_sub(s.max, value);
        }
        s
    }

    /// The union of this range with another.
    pub fn union(self, other: &Range) -> (r: Range)
        ensures
            r == union_of(self, *other),
    {
        if other.min > other.max {
            self
        } else if self.min > self.max {
            *other
        } else {
            let mut s = self;
            if other.min < s.min {
                s.min = other.min;
            }
            if other.max > s.max {
                s.max = other.max;
            }
            s
        }
    }

    /// The intersection of this range with another.
    pub fn intersect(self, other: &Range) -> (r: Range)
        ensures
            r == intersect_of(self, *other),
    {
        if other.min > other.max {
            *other
        } else if self.min > self.max {
            self
        } else {
            let mut s = self;
            if other.min > s.min {
                s.min = other.min;
            }
            if other.max < s.max {
                s.max = other.max;
            }
            s
        }
    }

    /// Shift the range by an amount.
    pub fn shifted(self, delta: i64) -> (r: Range)
        ensures
            r.min == sat64(self.min + delta),
            r.max == sat64(self.max + delta),
    {
        Range { min: sat_add(self.min, delta), max: sat_add(self.max, delta) }
    }

    /// Scale the range by a fixed-point factor, swapping the bounds under a
    /// negative factor so that `min <= max` is preserved.
    pub fn scaled(self, scale: i64) -> (r: Range)
        ensures
            scale >= 0 ==> r.min == crate::fixed::fx_mul_spec(self.min as int, scale as int)
                && r.max == crate::fixed::fx_mul_spec(self.max as int, scale as int),
            scale < 0 ==> r.min == crate::fixed::fx_mul_spec(self.max as int, scale as int)
                && r.max == crate::fixed::fx_mul_spec(self.min as int, scale as int),
    {
        if scale < 0 {
            Range { min: crate::fixed::fx_mul(self.max, scale), max: crate::fixed::fx_mul(self.min, scale) }
        } else {
            Range { min: crate::fixed::fx_mul(self.min, scale), max: crate::fixed::fx_mul(self.max, scale) }
        }
    }

    /// Divide the range by a fixed-point factor, swapping the bounds under a
    /// negative factor so that `min <= max` is preserved.
    pub fn divided(self, scale: i64) -> (r: Range)
        requires
            scale != 0,
        ensures
            scale > 0 ==> r.min == crate::fixed::fx_div_spec(self.min as int, scale as int)
                && r.max == crate::fixed::fx_div_spec(self.max as int, scale as int),
            scale < 0 ==> r.min == crate::fixed::fx_div_spec(self.max as int, scale as int)
                && r.max == crate::fixed::fx_div_spec(self.min as int, scale as int),
    {
        if scale < 0 {
            Range { min: crate::fixed::fx_div(self.max, scale), max: crate::fixed::fx_div(self.min, scale) }
        } else {
            Range { min: crate::fixed::fx_div(self.min, scale), max: crate::fixed::fx_div(self.max, scale) }
        }
    }
}

/// The union of two ranges holds everything either operand holds, and the
/// union with an empty range gives the other operand back unchanged.
pub proof fn lemma_union_superset(a: Range, b: Range)
    ensures
        forall|v: int| range_contains(a, v) ==> range_contains(union_of(a, b), v),
        forall|v: int| range_contains(b, v) ==> range_contains(union_of(a, b), v),
        a.min > a.max && b.min <= b.max ==> union_of(a, b) == b,
        b.min > b.max ==> union_of(a, b) == a,
{
}

/// The intersection of two ranges holds only what both operands hold, and
/// the intersection with an empty range is empty.
pub proof fn lemma_intersect_subset(a: Range, b: Range)
    ensures
        forall|v: int| range_contains(intersect_of(a, b), v) ==> range_contains(a, v)
            && range_contains(b, v),
        a.min > a.max ==> intersect_of(a, b).min > intersect_of(a, b).max,
        b.min > b.max ==> intersect_of(a, b).min > intersect_of(a, b).max,
{
}

/// Enlarging a non-empty range and then reducing it by the same amount
/// restores the original range, as long as neither bound saturates.
pub proof fn lemma_enlarge_reduce(a: Range, v: i64)
    requires
        a.min <= a.max,
        fits(a.min - v),
        fits(a.max + v),
        a.min - v <= a.max + v,
    ensures
        reduce_of(enlarge_of(a, v), v) == a,
{
    let e = enlarge_of(a, v);
    assert(e.min == a.min - v && e.max == a.max + v);
    assert(reduce_of(e, v).min == a.min && reduce_of(e, v).max == a.max);
}

} // verus!
