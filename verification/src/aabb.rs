//! Axis-aligned bounding boxes: three intervals, one per axis, with the
//! union, overlap, split and surface-area operations the BVH builder needs,
//! and an exact slab ray test whose soundness — a ray reaching a point
//! inside the (padded) box always passes the test — is proved below.

use vstd::prelude::*;

verus! {

use crate::fixed::FX_MAX;
use crate::fixed::SCALE;
use crate::fixed::ceil_div_i128;
use crate::fixed::floor_div_i128;
use crate::fixed::flr;
use crate::fixed::fx_add;
use crate::fixed::fx_add_spec;
use crate::fixed::fx_mul;
use crate::fixed::fx_mul_spec;
use crate::fixed::fx_sub_spec;
use crate::fixed::lemma_flr_bounds;
use crate::fixed::lemma_fx_mul_monotone;
use crate::fixed::lemma_mul_ge_iff_cl;
use crate::fixed::lemma_mul_ge_iff_flr;
use crate::interval::Interval;
use crate::interval::ivl_contains;
use crate::interval::ivl_mid_spec;
use crate::interval::ivl_overlaps;
use crate::interval::ivl_union;
use crate::ray::Ray;
use crate::ray::ray_at_spec;
use crate::vec3::Vec3;

/// Slack, in raw units, by which the slab test pads a box: it absorbs the
/// one-unit rounding of the fixed-point multiply in `Ray::at` and the
/// clamping slack the primitives allow a reported hit point.
pub const PAD: i64 = 64;

/// Bound, in raw units, on the coordinates of scene geometry.
pub const B_COORD: i64 = 0x100_0000_0000;

/// Bound, in raw units, on the endpoints of a nonempty bounding box of
/// well-formed geometry (a sphere bound reaches `2 * B_COORD`).
pub const B_BOX: i64 = 0x400_0000_0000;

/// Bound, in raw units, on the origin of a ray handed to the traversal.
pub const B_ORG: i64 = 0x1000_0000_0000;

/// A range of `T` values wider than any constraint a slab can produce.
pub const T_HUGE: i128 = 0x2_0000_0000_0000_0000_0000_0000;

/// Defines an axis to split an [`Aabb`] on.
#[derive(Clone, Copy, Debug, PartialEq, Eq, Structural)]
pub enum SplitAxis {
    X,
    Y,
    Z,
}

/// The axis-aligned bounding box itself: one [`Interval`] per axis.
#[derive(Clone, Copy, Debug, PartialEq, Eq, Structural)]
pub struct Aabb {
    pub x: Interval,
    pub y: Interval,
    pub z: Interval,
}

/// The box contains the point, endpoints included.
pub open spec fn aabb_contains_point(b: Aabb, p: Vec3) -> bool {
    ivl_contains(b.x, p.x as int) && ivl_contains(b.y, p.y as int) && ivl_contains(
        b.z,
        p.z as int,
    )
}

/// The box, grown by `PAD` raw units on every side, contains the point.
pub open spec fn aabb_contains_point_padded(b: Aabb, p: Vec3) -> bool {
    b.x.min - PAD <= p.x as int <= b.x.max + PAD && b.y.min - PAD <= p.y as int <= b.y.max + PAD
        && b.z.min - PAD <= p.z as int <= b.z.max + PAD
}

/// The boxes overlap on every axis.
pub open spec fn aabb_overlaps(a: Aabb, b: Aabb) -> bool {
    ivl_overlaps(a.x, b.x) && ivl_overlaps(a.y, b.y) && ivl_overlaps(a.z, b.z)
}

/// Componentwise union.
pub open spec fn aabb_union(a: Aabb, b: Aabb) -> Aabb {
    Aabb { x: ivl_union(a.x, b.x), y: ivl_union(a.y, b.y), z: ivl_union(a.z, b.z) }
}

/// `inner` is contained in `outer`: every point of `inner` is a point of
/// `outer` (stated over endpoints; holds vacuously for an empty `inner`).
pub open spec fn aabb_encloses(outer: Aabb, inner: Aabb) -> bool {
    (outer.x.min <= inner.x.min && inner.x.max <= outer.x.max) && (outer.y.min <= inner.y.min
        && inner.y.max <= outer.y.max) && (outer.z.min <= inner.z.min && inner.z.max
        <= outer.z.max)
}

/// A box is measured: every endpoint lies within `B_BOX`, or it is the
/// sentinel empty box `(FX_MAX, -FX_MAX)` on every axis.
pub open spec fn aabb_bounded(b: Aabb) -> bool {
    ivl_bounded(b.x) && ivl_bounded(b.y) && ivl_bounded(b.z)
}

/// One axis of `aabb_bounded`.
pub open spec fn ivl_bounded(i: Interval) -> bool {
    (-B_BOX <= i.min <= B_BOX && -B_BOX <= i.max <= B_BOX) || (i.min == FX_MAX && i.max
        == -FX_MAX)
}

/// One axis of the slab condition for a box grown by `pad` raw units:
/// at parameter `T` (in raw units) the exact rational point of the ray
/// lies within the padded slab.
pub open spec fn axis_cond_at(o: int, d: int, min: int, max: int, pad: int, t: int) -> bool {
    SCALE * (min - pad - o) <= t * d && t * d < SCALE * (max + pad + 1 - o)
}

/// One axis of the acceptance condition: the slab padded by `PAD`.
pub open spec fn axis_cond(o: int, d: int, min: int, max: int, t: int) -> bool {
    axis_cond_at(o, d, min, max, PAD as int, t)
}

/// The ray meets the box padded by `PAD` at some parameter in
/// `[0, FX_MAX]`: the acceptance criterion of `ray_hit`, and what the
/// traversal's pruning soundness rests on.
pub open spec fn aabb_hit_spec(b: Aabb, r: Ray) -> bool {
    exists|t: int| 0 <= t <= FX_MAX && #[trigger] all_axis_cond(b, r, t)
}

/// The ray meets the box itself (no pad) at some parameter in
/// `[0, FX_MAX]`: when this holds, `ray_hit` reports the least such
/// parameter, exactly as the classic slab test would.
pub open spec fn aabb_hit_tight_spec(b: Aabb, r: Ray) -> bool {
    exists|t: int| 0 <= t <= FX_MAX && #[trigger] all_axis_cond_at(b, r, 0, t)
}

impl SplitAxis {
    /// Given an [`Aabb`], returns the longest axis to split along.
    pub fn choose_from_aabb(aabb: Aabb) -> (r: SplitAxis)
        ensures
            r == choose_axis_spec(aabb),
    {
        let x = aabb.x.size();
        let y = aabb.y.size();
        let z = aabb.z.size();
        if x > y && x > z {
            SplitAxis::X
        } else if y > z {
            SplitAxis::Y
        } else {
            SplitAxis::Z
        }
    }
}

/// The longest axis of the box (ties resolved toward later axes, exactly
/// as the comparisons below do).
pub open spec fn choose_axis_spec(aabb: Aabb) -> SplitAxis {
    let x = fx_sub_spec(aabb.x.max as int, aabb.x.min as int);
    let y = fx_sub_spec(aabb.y.max as int, aabb.y.min as int);
    let z = fx_sub_spec(aabb.z.max as int, aabb.z.min as int);
    if x > y && x > z {
        SplitAxis::X
    } else if y > z {
        SplitAxis::Y
    } else {
        SplitAxis::Z
    }
}

/// The surface area `2 * (xy + yz + zx)` of the box's extents, the cost
/// proxy of the surface-area heuristic (never used for containment).
pub open spec fn aabb_area_spec(b: Aabb) -> int {
    let sx = fx_sub_spec(b.x.max as int, b.x.min as int);
    let sy = fx_sub_spec(b.y.max as int, b.y.min as int);
    let sz = fx_sub_spec(b.z.max as int, b.z.min as int);
    fx_mul_spec(
        2 * SCALE,
        fx_add_spec(
            fx_add_spec(fx_mul_spec(sx, sy), fx_mul_spec(sy, sz)),
            fx_mul_spec(sz, sx),
        ),
    )
}

/// The empty box: the sentinel empty interval on every axis.
pub open spec fn aabb_empty() -> Aabb {
    Aabb {
        x: Interval { min: FX_MAX, max: (-FX_MAX) as i64 },
        y: Interval { min: FX_MAX, max: (-FX_MAX) as i64 },
        z: Interval { min: FX_MAX, max: (-FX_MAX) as i64 },
    }
}

impl Aabb {
    /// Creates an empty [`Aabb`] where each axis is [`Interval::empty()`].
    pub fn new() -> (r: Aabb)
        ensures
            r == aabb_empty(),
            forall|p: Vec3| !aabb_contains_point(r, p),
            aabb_bounded(r),
    {
        Aabb {
            x: Interval { min: FX_MAX, max: -FX_MAX },
            y: Interval { min: FX_MAX, max: -FX_MAX },
            z: Interval { min: FX_MAX, max: -FX_MAX },
        }
    }

    /// Grow `self` to cover `other` as well.
    pub fn union(&mut self, other: &Aabb)
        ensures
            *final(self) == aabb_union(*old(self), *other),
    {
        self.x.union(&other.x);
        self.y.union(&other.y);
        self.z.union(&other.z);
    }

    /// The boxes share at least one point on every axis (touching counts).
    pub fn overlaps(&self, other: &Aabb) -> (r: bool)
        ensures
            r == aabb_overlaps(*self, *other),
    {
        self.x.overlaps(&other.x) && self.y.overlaps(&other.y) && self.z.overlaps(&other.z)
    }

    /// Check that the box is measured: each axis within `B_BOX`, or the
    /// sentinel empty interval.
    pub fn is_bounded(&self) -> (r: bool)
        ensures
            r == aabb_bounded(*self),
    {
        ivl_bounded_exec(&self.x) && ivl_bounded_exec(&self.y) && ivl_bounded_exec(&self.z)
    }

    /// Check if every point of `inner` is a point of `self`.
    pub fn encloses(&self, inner: &Aabb) -> (r: bool)
        ensures
            r == aabb_encloses(*self, *inner),
    {
        self.x.min <= inner.x.min && inner.x.max <= self.x.max && self.y.min <= inner.y.min
            && inner.y.max <= self.y.max && self.z.min <= inner.z.min && inner.z.max
            <= self.z.max
    }

    /// Check if `self` contains the given `point`.
    pub fn contains_point(&self, point: Vec3) -> (r: bool)
        ensures
            r == aabb_contains_point(*self, point),
    {
        self.x.contains(point.x) && self.y.contains(point.y) && self.z.contains(point.z)
    }

    /// Check if `self`, padded by `PAD` raw units, contains the point.
    pub fn contains_point_padded(&self, point: Vec3) -> (r: bool)
        requires
            aabb_bounded(*self),
        ensures
            r == aabb_contains_point_padded(*self, point),
    {
        self.x.min - PAD <= point.x && point.x <= self.x.max + PAD && self.y.min - PAD <= point.y
            && point.y <= self.y.max + PAD && self.z.min - PAD <= point.z && point.z <= self.z.max
            + PAD
    }

    /// Split `self` along the axis at the given coordinate, without
    /// mutating: the left half keeps everything up to `at`, the right half
    /// everything from `at` on, so the two halves share the split plane.
    pub fn split_at(&self, axis: SplitAxis, at: i64) -> (r: (Aabb, Aabb))
        ensures
            r == split_at_spec(*self, axis, at as int),
    {
        let mut left = *self;
        let mut right = *self;
        match axis {
            SplitAxis::X => {
                left.x.max = at;
                right.x.min = at;
            },
            SplitAxis::Y => {
                left.y.max = at;
                right.y.min = at;
            },
            SplitAxis::Z => {
                left.z.max = at;
                right.z.min = at;
            },
        }
        (left, right)
    }

    /// Calculate the centroid of `self`.
    pub fn centroid(&self) -> (r: Vec3)
        ensures
            r.x as int == ivl_mid_spec(self.x),
            r.y as int == ivl_mid_spec(self.y),
            r.z as int == ivl_mid_spec(self.z),
    {
        Vec3 { x: self.x.mid(), y: self.y.mid(), z: self.z.mid() }
    }

    /// Calculate the surface area of `self`.
    pub fn surface_area(&self) -> (r: i64)
        ensures
            r as int == aabb_area_spec(*self),
    {
        let sx = self.x.size();
        let sy = self.y.size();
        let sz = self.z.size();
        let two: i64 = 2 * SCALE;
        fx_mul(two, fx_add(fx_add(fx_mul(sx, sy), fx_mul(sy, sz)), fx_mul(sz, sx)))
    }

    /// The slab ray test.  Acceptance is judged against the box padded
    /// by `PAD` raw units (the slack that absorbs fixed-point rounding,
    /// proved sound for pruning in `lemma_slab_sound`); the reported
    /// parameter is the least one at which the ray meets the *unpadded*
    /// box — zero when the origin is inside, exactly as the classic slab
    /// method answers — falling back to the padded box's least parameter
    /// only for rays that touch nothing but the pad band.
    pub fn ray_hit(&self, ray: &Ray) -> (r: Option<i64>)
        ensures
            r.is_some() == aabb_hit_spec(*self, *ray),
            match r {
                Some(t) => 0 <= t <= FX_MAX && if aabb_hit_tight_spec(*self, *ray) {
                    all_axis_cond_at(*self, *ray, 0, t as int) && forall|t2: int|
                        0 <= t2 < t ==> !all_axis_cond_at(*self, *ray, 0, t2)
                } else {
                    all_axis_cond(*self, *ray, t as int) && forall|t2: int|
                        0 <= t2 < t ==> !all_axis_cond(*self, *ray, t2)
                },
                None => true,
            },
    {
        let (okx, lox, hix) = axis_range(
            ray.origin.x,
            ray.direction.x,
            self.x.min,
            self.x.max,
            PAD,
        );
        let (oky, loy, hiy) = axis_range(
            ray.origin.y,
            ray.direction.y,
            self.y.min,
            self.y.max,
            PAD,
        );
        let (okz, loz, hiz) = axis_range(
            ray.origin.z,
            ray.direction.z,
            self.z.min,
            self.z.max,
            PAD,
        );
        if !okx || !oky || !okz {
            proof {
                assert forall|t: int| !(0 <= t <= FX_MAX && all_axis_cond(*self, *ray, t)) by {}
            }
            return None;
        }
        let mut lo: i128 = 0;
        let mut hi: i128 = FX_MAX as i128;
        if lox > lo {
            lo = lox;
        }
        if loy > lo {
            lo = loy;
        }
        if loz > lo {
            lo = loz;
        }
        if hix < hi {
            hi = hix;
        }
        if hiy < hi {
            hi = hiy;
        }
        if hiz < hi {
            hi = hiz;
        }
        if lo > hi {
            proof {
                assert forall|t: int| !(0 <= t <= FX_MAX && all_axis_cond(*self, *ray, t)) by {
                    if 0 <= t <= FX_MAX && all_axis_cond(*self, *ray, t) {
                        assert(-T_HUGE <= t <= T_HUGE);
                        assert(lox <= t <= hix);
                        assert(loy <= t <= hiy);
                        assert(loz <= t <= hiz);
                    }
                }
            }
            return None;
        }
        proof {
            assert(0 <= lo <= FX_MAX);
            assert(-T_HUGE <= lo <= T_HUGE);
            assert(all_axis_cond(*self, *ray, lo as int));
            assert(aabb_hit_spec(*self, *ray));
        }
        // the ray meets the padded box; report the unpadded entry when
        // one exists
        let (tox, tlox, thix) = axis_range(
            ray.origin.x,
            ray.direction.x,
            self.x.min,
            self.x.max,
            0,
        );
        let (toy, tloy, thiy) = axis_range(
            ray.origin.y,
            ray.direction.y,
            self.y.min,
            self.y.max,
            0,
        );
        let (toz, tloz, thiz) = axis_range(
            ray.origin.z,
            ray.direction.z,
            self.z.min,
            self.z.max,
            0,
        );
        if tox && toy && toz {
            let mut tlo: i128 = 0;
            let mut thi: i128 = FX_MAX as i128;
            if tlox > tlo {
                tlo = tlox;
            }
            if tloy > tlo {
                tlo = tloy;
            }
            if tloz > tlo {
                tlo = tloz;
            }
            if thix < thi {
                thi = thix;
            }
            if thiy < thi {
                thi = thiy;
            }
            if thiz < thi {
                thi = thiz;
            }
            if tlo <= thi {
                proof {
                    assert(0 <= tlo <= FX_MAX);
                    assert(-T_HUGE <= tlo <= T_HUGE);
                    assert(all_axis_cond_at(*self, *ray, 0, tlo as int));
                    assert(aabb_hit_tight_spec(*self, *ray));
                    assert forall|t2: int| 0 <= t2 < tlo implies !all_axis_cond_at(
                        *self,
                        *ray,
                        0,
                        t2,
                    ) by {
                        assert(-T_HUGE <= t2 <= T_HUGE);
                        if tlo == tlox {
                            assert(t2 < tlox);
                        } else if tlo == tloy {
                            assert(t2 < tloy);
                        } else if tlo == tloz {
                            assert(t2 < tloz);
                        } else {
                            assert(tlo == 0);
                        }
                    }
                }
                return Some(tlo as i64);
            }
            proof {
                assert(!aabb_hit_tight_spec(*self, *ray)) by {
                    if aabb_hit_tight_spec(*self, *ray) {
                        let t = choose|t: int|
                            0 <= t <= FX_MAX && #[trigger] all_axis_cond_at(*self, *ray, 0, t);
                        assert(-T_HUGE <= t <= T_HUGE);
                        assert(tlox <= t <= thix);
                        assert(tloy <= t <= thiy);
                        assert(tloz <= t <= thiz);
                    }
                }
            }
        } else {
            proof {
                assert(!aabb_hit_tight_spec(*self, *ray)) by {
                    if aabb_hit_tight_spec(*self, *ray) {
                        let t = choose|t: int|
                            0 <= t <= FX_MAX && #[trigger] all_axis_cond_at(*self, *ray, 0, t);
                        assert(-T_HUGE <= t <= T_HUGE);
                        if !tox {
                            assert(!axis_cond_at(
                                ray.origin.x as int,
                                ray.direction.x as int,
                                self.x.min as int,
                                self.x.max as int,
                                0,
                                t,
                            ));
                        } else if !toy {
                            assert(!axis_cond_at(
                                ray.origin.y as int,
                                ray.direction.y as int,
                                self.y.min as int,
                                self.y.max as int,
                                0,
                                t,
                            ));
                        } else {
                            assert(!axis_cond_at(
                                ray.origin.z as int,
                                ray.direction.z as int,
                                self.z.min as int,
                                self.z.max as int,
                                0,
                                t,
                            ));
                        }
                    }
                }
            }
        }
        proof {
            assert forall|t2: int| 0 <= t2 < lo implies !all_axis_cond(*self, *ray, t2) by {
                assert(-T_HUGE <= t2 <= T_HUGE);
                if lo == lox {
                    assert(t2 < lox);
                } else if lo == loy {
                    assert(t2 < loy);
                } else if lo == loz {
                    assert(t2 < loz);
                } else {
                    assert(lo == 0);
                }
            }
        }
        Some(lo as i64)
    }

}

/// Check one axis of `Aabb::is_bounded`.
fn ivl_bounded_exec(i: &Interval) -> (r: bool)
    ensures
        r == ivl_bounded(*i),
{
    (-B_BOX <= i.min && i.min <= B_BOX && -B_BOX <= i.max && i.max <= B_BOX) || (i.min == FX_MAX
        && i.max == -FX_MAX)
}

/// The conjunction of the three per-axis slab conditions at pad `pad`.
pub open spec fn all_axis_cond_at(b: Aabb, r: Ray, pad: int, t: int) -> bool {
    axis_cond_at(r.origin.x as int, r.direction.x as int, b.x.min as int, b.x.max as int, pad, t)
        && axis_cond_at(
        r.origin.y as int,
        r.direction.y as int,
        b.y.min as int,
        b.y.max as int,
        pad,
        t,
    ) && axis_cond_at(
        r.origin.z as int,
        r.direction.z as int,
        b.z.min as int,
        b.z.max as int,
        pad,
        t,
    )
}

/// The conjunction of the three per-axis acceptance conditions.
pub open spec fn all_axis_cond(b: Aabb, r: Ray, t: int) -> bool {
    all_axis_cond_at(b, r, PAD as int, t)
}

/// Compute the range of parameters satisfying one axis's slab condition.
/// When `ok` is false no parameter satisfies it; otherwise, within the
/// working range `[-T_HUGE, T_HUGE]`, the condition holds exactly on
/// `[lo, hi]` (which may be empty).
fn axis_range(o: i64, d: i64, min: i64, max: i64, pad: i64) -> (res: (bool, i128, i128))
    requires
        0 <= pad <= PAD,
    ensures
        !res.0 ==> forall|t: int|
            !axis_cond_at(o as int, d as int, min as int, max as int, pad as int, t),
        res.0 ==> forall|t: int|
            -T_HUGE <= t <= T_HUGE ==> (axis_cond_at(
                o as int,
                d as int,
                min as int,
                max as int,
                pad as int,
                t,
            ) <==> res.1 <= t <= res.2),
{
    let base_lo: i128 = min as i128 - pad as i128 - o as i128;
    let base_hi: i128 = max as i128 + pad as i128 + 1 - o as i128;
    proof {
        assert(-0x2_0000_0000_0000_0000_0000 <= 65536 * base_lo <= 0x2_0000_0000_0000_0000_0000)
            by (nonlinear_arith)
            requires
                -0x2_0000_0000_0000_0000 <= base_lo <= 0x2_0000_0000_0000_0000,
        ;
        assert(-0x2_0000_0000_0000_0000_0000 <= 65536 * base_hi <= 0x2_0000_0000_0000_0000_0000)
            by (nonlinear_arith)
            requires
                -0x2_0000_0000_0000_0000 <= base_hi <= 0x2_0000_0000_0000_0000,
        ;
    }
    let num_lo: i128 = SCALE as i128 * base_lo;
    let num_hi: i128 = SCALE as i128 * base_hi;
    if d == 0 {
        if num_lo <= 0 && 0 < num_hi {
            proof {
                assert forall|t: int| -T_HUGE <= t <= T_HUGE implies (axis_cond_at(
                    o as int,
                    d as int,
                    min as int,
                    max as int,
                    pad as int,
                    t,
                ) <==> -T_HUGE <= t <= T_HUGE) by {
                    assert(t * (d as int) == 0) by (nonlinear_arith)
                        requires
                            d == 0,
                    ;
                }
            }
            (true, -T_HUGE, T_HUGE)
        } else {
            proof {
                assert forall|t: int| !axis_cond_at(
                    o as int,
                    d as int,
                    min as int,
                    max as int,
                    pad as int,
                    t,
                ) by {
                    assert(t * (d as int) == 0) by (nonlinear_arith)
                        requires
                            d == 0,
                    ;
                }
            }
            (false, 0, 0)
        }
    } else if d > 0 {
        let lo = ceil_div_i128(num_lo, d as i128);
        let hi = ceil_div_i128(num_hi, d as i128) - 1;
        proof {
            assert forall|t: int| -T_HUGE <= t <= T_HUGE implies (axis_cond_at(
                o as int,
                d as int,
                min as int,
                max as int,
                pad as int,
                t,
            ) <==> lo <= t <= hi) by {
                lemma_mul_ge_iff_cl(t, d as int, num_lo as int);
                lemma_mul_ge_iff_cl(t, d as int, num_hi as int);
            }
        }
        (true, lo, hi)
    } else {
        let lo = floor_div_i128(num_hi, d as i128) + 1;
        let hi = floor_div_i128(num_lo, d as i128);
        proof {
            assert forall|t: int| -T_HUGE <= t <= T_HUGE implies (axis_cond_at(
                o as int,
                d as int,
                min as int,
                max as int,
                pad as int,
                t,
            ) <==> lo <= t <= hi) by {
                lemma_mul_ge_iff_flr(t, d as int, num_lo as int);
                lemma_mul_ge_iff_flr(t, d as int, num_hi as int);
            }
        }
        (true, lo, hi)
    }
}

/// Soundness of the padded slab test: if the fixed-point point the ray
/// reaches at a parameter `t` in `[0, FX_MAX]` lies in the padded box,
/// the test reports a hit — so the traversal may skip a subtree whose
/// box the test rejects.
pub proof fn lemma_slab_sound(b: Aabb, r: Ray, t: int)
    requires
        0 <= t <= FX_MAX,
        aabb_bounded(b),
        -B_ORG <= r.origin.x as int <= B_ORG,
        -B_ORG <= r.origin.y as int <= B_ORG,
        -B_ORG <= r.origin.z as int <= B_ORG,
        aabb_contains_point_padded(b, ray_at_spec(r, t)),
    ensures
        aabb_hit_spec(b, r),
{
    let p = ray_at_spec(r, t);
    assert(p.x as int == fx_add_spec(r.origin.x as int, fx_mul_spec(r.direction.x as int, t)));
    assert(p.y as int == fx_add_spec(r.origin.y as int, fx_mul_spec(r.direction.y as int, t)));
    assert(p.z as int == fx_add_spec(r.origin.z as int, fx_mul_spec(r.direction.z as int, t)));
    lemma_axis_slab_sound(r.origin.x as int, r.direction.x as int, b.x, t, p.x as int);
    lemma_axis_slab_sound(r.origin.y as int, r.direction.y as int, b.y, t, p.y as int);
    lemma_axis_slab_sound(r.origin.z as int, r.direction.z as int, b.z, t, p.z as int);
    assert(0 <= t <= FX_MAX && all_axis_cond(b, r, t));
    assert(aabb_hit_spec(b, r));
}

/// One axis of `lemma_slab_sound`.
proof fn lemma_axis_slab_sound(o: int, d: int, ivl: Interval, t: int, p: int)
    requires
        0 <= t <= FX_MAX,
        ivl_bounded(ivl),
        -B_ORG <= o <= B_ORG,
        p == fx_add_spec(o, fx_mul_spec(d, t)),
        ivl.min - PAD <= p <= ivl.max + PAD,
    ensures
        axis_cond(o, d, ivl.min as int, ivl.max as int, t),
{
    assert(d * t == t * d) by (nonlinear_arith);
    let q = flr(t * d, SCALE as int);
    let c = crate::fixed::fx_clip(q);
    lemma_flr_bounds(t * d, SCALE as int);
    if ivl.min == FX_MAX && ivl.max == -FX_MAX {
        // the sentinel empty interval admits no padded point
        assert(false);
    }
    assert(-B_BOX <= ivl.min <= B_BOX && -B_BOX <= ivl.max <= B_BOX);
    if q > FX_MAX {
        // the multiply saturated upward: the point would sit far beyond
        // any bounded interval, contradicting containment
        assert(c == FX_MAX as int);
        assert(p == crate::fixed::fx_clip(o + c));
        assert(p >= -B_ORG + FX_MAX > B_BOX + PAD);
        assert(false);
    } else if q < -FX_MAX {
        assert(c == -(FX_MAX as int));
        assert(p == crate::fixed::fx_clip(o + c));
        assert(p <= B_ORG - FX_MAX);
        assert(false);
    } else {
        assert(c == q);
        assert(p == crate::fixed::fx_clip(o + q));
        if o + q > FX_MAX {
            assert(p == FX_MAX as int);
            assert(false);
        }
        if o + q < -FX_MAX {
            assert(p == -(FX_MAX as int));
            assert(false);
        }
        assert(o + q == p);
        assert(SCALE * (ivl.min - PAD - o) <= SCALE * q) by (nonlinear_arith)
            requires
                ivl.min - PAD - o <= q,
                SCALE == 65536,
        ;
        assert(SCALE * q <= t * d);
        assert(t * d < SCALE * (q + 1));
        assert(SCALE * (q + 1) <= SCALE * (ivl.max + PAD + 1 - o)) by (nonlinear_arith)
            requires
                q + 1 <= ivl.max + PAD + 1 - o,
                SCALE == 65536,
        ;
    }
}

/// A ray whose origin already lies in the box meets it (unpadded) at
/// parameter zero, so the slab test — which reports the least unpadded
/// parameter whenever one exists — answers `Some(0)` for it.
pub proof fn lemma_inside_hits_at_zero(b: Aabb, r: Ray)
    requires
        aabb_contains_point(b, r.origin),
    ensures
        all_axis_cond_at(b, r, 0, 0),
        aabb_hit_tight_spec(b, r),
        all_axis_cond(b, r, 0),
        aabb_hit_spec(b, r),
{
    lemma_axis_zero(r.origin.x as int, r.direction.x as int, b.x.min as int, b.x.max as int, 0);
    lemma_axis_zero(r.origin.y as int, r.direction.y as int, b.y.min as int, b.y.max as int, 0);
    lemma_axis_zero(r.origin.z as int, r.direction.z as int, b.z.min as int, b.z.max as int, 0);
    lemma_axis_zero(
        r.origin.x as int,
        r.direction.x as int,
        b.x.min as int,
        b.x.max as int,
        PAD as int,
    );
    lemma_axis_zero(
        r.origin.y as int,
        r.direction.y as int,
        b.y.min as int,
        b.y.max as int,
        PAD as int,
    );
    lemma_axis_zero(
        r.origin.z as int,
        r.direction.z as int,
        b.z.min as int,
        b.z.max as int,
        PAD as int,
    );
    assert(0 <= 0 <= FX_MAX && all_axis_cond_at(b, r, 0, 0));
    assert(0 <= 0 <= FX_MAX && all_axis_cond(b, r, 0));
}

/// One axis of `lemma_inside_hits_at_zero`.
proof fn lemma_axis_zero(o: int, d: int, min: int, max: int, pad: int)
    requires
        pad >= 0,
        min <= o <= max,
    ensures
        axis_cond_at(o, d, min, max, pad, 0),
{
    assert(0 * d == 0) by (nonlinear_arith);
    assert(SCALE * (min - pad - o) <= 0) by (nonlinear_arith)
        requires
            min - pad - o <= 0,
    ;
    assert(0 < SCALE * (max + pad + 1 - o)) by (nonlinear_arith)
        requires
            max + pad + 1 - o >= 1,
    ;
}

/// The union of two nonempty boxes overlaps both, and its surface area is
/// at least as large as either operand's.
pub proof fn lemma_aabb_union(a: Aabb, b: Aabb)
    requires
        a.x.min <= a.x.max && a.y.min <= a.y.max && a.z.min <= a.z.max,
        b.x.min <= b.x.max && b.y.min <= b.y.max && b.z.min <= b.z.max,
    ensures
        aabb_overlaps(aabb_union(a, b), a),
        aabb_overlaps(aabb_union(a, b), b),
        aabb_encloses(aabb_union(a, b), a),
        aabb_encloses(aabb_union(a, b), b),
        aabb_area_spec(aabb_union(a, b)) >= aabb_area_spec(a),
        aabb_area_spec(aabb_union(a, b)) >= aabb_area_spec(b),
{
    lemma_area_monotone(a, aabb_union(a, b));
    lemma_area_monotone(b, aabb_union(a, b));
}

/// Surface area is monotone under enclosure of nonempty boxes.
pub proof fn lemma_area_monotone(inner: Aabb, outer: Aabb)
    requires
        inner.x.min <= inner.x.max && inner.y.min <= inner.y.max && inner.z.min <= inner.z.max,
        aabb_encloses(outer, inner),
    ensures
        aabb_area_spec(outer) >= aabb_area_spec(inner),
{
    let sx = fx_sub_spec(inner.x.max as int, inner.x.min as int);
    let sy = fx_sub_spec(inner.y.max as int, inner.y.min as int);
    let sz = fx_sub_spec(inner.z.max as int, inner.z.min as int);
    let ox = fx_sub_spec(outer.x.max as int, outer.x.min as int);
    let oy = fx_sub_spec(outer.y.max as int, outer.y.min as int);
    let oz = fx_sub_spec(outer.z.max as int, outer.z.min as int);
    assert(0 <= sx <= ox && 0 <= sy <= oy && 0 <= sz <= oz);
    lemma_fx_mul_monotone(sx, sy, ox, oy);
    lemma_fx_mul_monotone(sy, sz, oy, oz);
    lemma_fx_mul_monotone(sz, sx, oz, ox);
    lemma_fx_mul_monotone(
        fx_add_spec(
            fx_add_spec(fx_mul_spec(sx, sy), fx_mul_spec(sy, sz)),
            fx_mul_spec(sz, sx),
        ),
        2 * SCALE,
        fx_add_spec(
            fx_add_spec(fx_mul_spec(ox, oy), fx_mul_spec(oy, oz)),
            fx_mul_spec(oz, ox),
        ),
        2 * SCALE,
    );
    lemma_fx_mul_comm(
        2 * SCALE,
        fx_add_spec(
            fx_add_spec(fx_mul_spec(sx, sy), fx_mul_spec(sy, sz)),
            fx_mul_spec(sz, sx),
        ),
    );
    lemma_fx_mul_comm(
        2 * SCALE,
        fx_add_spec(
            fx_add_spec(fx_mul_spec(ox, oy), fx_mul_spec(oy, oz)),
            fx_mul_spec(oz, ox),
        ),
    );
}

/// Fixed-point multiplication is commutative.
pub proof fn lemma_fx_mul_comm(a: int, b: int)
    ensures
        fx_mul_spec(a, b) == fx_mul_spec(b, a),
{
    assert(a * b == b * a) by (nonlinear_arith);
}

/// The spec mirror of `Aabb::split_at`.
pub open spec fn split_at_spec(b: Aabb, axis: SplitAxis, at: int) -> (Aabb, Aabb) {
    match axis {
        SplitAxis::X => (
            Aabb { x: Interval { min: b.x.min, max: at as i64 }, y: b.y, z: b.z },
            Aabb { x: Interval { min: at as i64, max: b.x.max }, y: b.y, z: b.z },
        ),
        SplitAxis::Y => (
            Aabb { x: b.x, y: Interval { min: b.y.min, max: at as i64 }, z: b.z },
            Aabb { x: b.x, y: Interval { min: at as i64, max: b.y.max }, z: b.z },
        ),
        SplitAxis::Z => (
            Aabb { x: b.x, y: b.y, z: Interval { min: b.z.min, max: at as i64 } },
            Aabb { x: b.x, y: b.y, z: Interval { min: at as i64, max: b.z.max } },
        ),
    }
}

} // verus!
