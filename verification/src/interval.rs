//! Closed intervals of fixed-point values, the one-dimensional building
//! block of the axis-aligned bounding boxes.

use vstd::prelude::*;

verus! {

use crate::fixed::FX_MAX;
use crate::fixed::flr;
use crate::fixed::floor_div_i128;
use crate::fixed::fx_clip;
use crate::fixed::fx_max;
use crate::fixed::fx_min;
use crate::fixed::fx_sub;
use crate::fixed::fx_sub_spec;
use crate::fixed::fx_wf;

/// An interval of fixed-point values.  `empty()` (written `(FX_MAX, -FX_MAX)`)
/// contains nothing and is the identity for `union`; `universe()` contains
/// every value.
#[derive(Clone, Copy, Debug, PartialEq, Eq, Structural)]
pub struct Interval {
    /// The lower endpoint of the interval.
    pub min: i64,
    /// The upper endpoint of the interval.
    pub max: i64,
}

/// A point lies in the interval, endpoints included.
pub open spec fn ivl_contains(i: Interval, x: int) -> bool {
    i.min <= x <= i.max
}

/// A point lies strictly inside the interval, endpoints excluded.
pub open spec fn ivl_surrounds(i: Interval, x: int) -> bool {
    i.min < x < i.max
}

/// Two intervals share at least one point (touching endpoints count).
pub open spec fn ivl_overlaps(a: Interval, b: Interval) -> bool {
    a.min <= b.max && b.min <= a.max
}

/// The union of two intervals: the smallest interval covering both.
pub open spec fn ivl_union(a: Interval, b: Interval) -> Interval {
    Interval {
        min: if a.min <= b.min { a.min } else { b.min },
        max: if a.max >= b.max { a.max } else { b.max },
    }
}

/// The midpoint, rounded toward negative infinity.
pub open spec fn ivl_mid_spec(a: Interval) -> int {
    fx_clip(flr(a.min + a.max, 2))
}

impl Interval {
    /// Create a new interval with the given endpoints.
    pub fn new(min: i64, max: i64) -> (r: Interval)
        ensures
            r.min == min,
            r.max == max,
    {
        Interval { min, max }
    }

    /// The interval that contains nothing; the identity for `union`.
    pub fn empty() -> (r: Interval)
        ensures
            r.min == FX_MAX,
            r.max == -FX_MAX,
            forall|x: int| !ivl_contains(r, x),
    {
        Interval { min: FX_MAX, max: -FX_MAX }
    }

    /// The interval that contains every fixed-point value.
    pub fn universe() -> (r: Interval)
        ensures
            r.min == -FX_MAX,
            r.max == FX_MAX,
            forall|x: int| fx_wf(x) ==> ivl_contains(r, x),
    {
        Interval { min: -FX_MAX, max: FX_MAX }
    }

    /// The extent `max - min` (saturating; negative for an empty interval).
    pub fn size(self) -> (r: i64)
        ensures
            r as int == fx_sub_spec(self.max as int, self.min as int),
    {
        fx_sub(self.max, self.min)
    }

    /// Closed-interval membership: endpoints are contained.
    pub fn contains(self, x: i64) -> (r: bool)
        ensures
            r == ivl_contains(self, x as int),
    {
        self.min <= x && x <= self.max
    }

    /// Both endpoints of `other` are contained in `self`.
    pub fn contains_interval(self, other: &Interval) -> (r: bool)
        ensures
            r == (ivl_contains(self, other.min as int) && ivl_contains(self, other.max as int)),
    {
        self.contains(other.min) && self.contains(other.max)
    }

    /// The two intervals share a point; touching exactly at an endpoint
    /// counts, which is what keeps adjacent split boxes overlapping at the
    /// shared boundary.
    pub fn overlaps(self, other: &Interval) -> (r: bool)
        ensures
            r == ivl_overlaps(self, *other),
    {
        self.min <= other.max && other.min <= self.max
    }

    /// Open-interval membership: endpoints are excluded.  Used to reject
    /// intersections exactly at a ray-interval boundary.
    pub fn surrounds(self, x: i64) -> (r: bool)
        ensures
            r == ivl_surrounds(self, x as int),
    {
        self.min < x && x < self.max
    }

    /// Clamp a value into the interval.
    pub fn clamp(self, x: i64) -> (r: i64)
        ensures
            r == if (x as int) < self.min {
                self.min
            } else if (x as int) > self.max {
                self.max
            } else {
                x
            },
    {
        if x < self.min {
            return self.min;
        }
        if x > self.max {
            return self.max;
        }
        x
    }

    /// Grow `self` to cover `other` as well.
    pub fn union(&mut self, other: &Interval)
        ensures
            *final(self) == ivl_union(*old(self), *other),
    {
        self.min = fx_min(self.min, other.min);
        self.max = fx_max(self.max, other.max);
    }

    /// The midpoint of the interval.
    pub fn mid(self) -> (r: i64)
        ensures
            r as int == ivl_mid_spec(self),
    {
        let s: i128 = self.min as i128 + self.max as i128;
        let h = floor_div_i128(s, 2);
        if h > FX_MAX as i128 {
            FX_MAX
        } else if h < -(FX_MAX as i128) {
            -FX_MAX
        } else {
            h as i64
        }
    }
}

/// Overlap is symmetric in its two arguments.
pub proof fn lemma_overlaps_symmetric(a: Interval, b: Interval)
    ensures
        ivl_overlaps(a, b) == ivl_overlaps(b, a),
{
}

/// `contains` and `surrounds` agree everywhere except exactly at the two
/// endpoints, which `contains` includes and `surrounds` excludes.
pub proof fn lemma_contains_surrounds(i: Interval, x: int)
    ensures
        ivl_surrounds(i, x) == (ivl_contains(i, x) && x != i.min && x != i.max),
        ivl_surrounds(i, x) ==> ivl_contains(i, x),
{
}

/// The union contains both operands, and is itself contained in anything
/// that contains both; `empty()` is its identity.
pub proof fn lemma_ivl_union(a: Interval, b: Interval)
    ensures
        forall|x: int| ivl_contains(a, x) ==> ivl_contains(ivl_union(a, b), x),
        forall|x: int| ivl_contains(b, x) ==> ivl_contains(ivl_union(a, b), x),
        ivl_union(a, b) == ivl_union(b, a),
        a.min == FX_MAX && a.max == -FX_MAX && fx_wf(b.min as int) && fx_wf(b.max as int)
            ==> ivl_union(a, b).min == b.min && ivl_union(a, b).max == b.max,
{
}

} // verus!
