//! Spheres: quadratic ray intersection in the reduced-discriminant form,
//! with an exact specification mirror and the restriction and containment
//! lemmas the container proofs build on.

use vstd::prelude::*;

verus! {

use crate::aabb::Aabb;
use crate::aabb::B_COORD;
use crate::aabb::aabb_bounded;
use crate::aabb::aabb_contains_point_padded;
use crate::fixed::fx_add;
use crate::fixed::fx_add_spec;
use crate::fixed::fx_div;
use crate::fixed::fx_div_spec;
use crate::fixed::fx_mul;
use crate::fixed::fx_mul_spec;
use crate::fixed::fx_sqrt;
use crate::fixed::fx_sqrt_spec;
use crate::fixed::fx_sub;
use crate::fixed::fx_sub_spec;
use crate::fixed::lemma_flr_bounds;
use crate::fixed::lemma_flr_monotone;
use crate::fixed::lemma_sqrt_floor;
use crate::hit::HitRecord;
use crate::hit::face_norm_spec;
use crate::hit::front_face_spec;
use crate::interval::Interval;
use crate::interval::ivl_surrounds;
use crate::material::Material;
use crate::ray::Ray;
use crate::ray::ray_at_spec;
use crate::vec3::Vec3;
use crate::vec3::dot;
use crate::vec3::v3_div;
use crate::vec3::v3_dot;
use crate::vec3::v3_len_sq;
use crate::vec3::v3_sub;

/// A perfect sphere.
#[derive(Clone, Copy, Debug, PartialEq, Eq, Structural)]
pub struct Sphere {
    /// The centre of the sphere.
    pub centre: Vec3,
    /// The radius of the sphere.
    pub radius: i64,
    /// The material of the sphere's surface.
    pub mat: Material,
}

/// A sphere is well formed when its centre and radius lie within the
/// coordinate bound for scene geometry and the radius is nonnegative.
pub open spec fn sphere_wf(s: Sphere) -> bool {
    &&& -B_COORD <= s.centre.x <= B_COORD
    &&& -B_COORD <= s.centre.y <= B_COORD
    &&& -B_COORD <= s.centre.z <= B_COORD
    &&& 0 <= s.radius <= B_COORD
    &&& crate::material::mat_wf(s.mat)
}

/// The bounding box `centre - radius .. centre + radius` on each axis.
pub open spec fn sphere_bound_spec(s: Sphere) -> Aabb {
    Aabb {
        x: Interval {
            min: fx_sub_spec(s.centre.x as int, s.radius as int) as i64,
            max: fx_add_spec(s.centre.x as int, s.radius as int) as i64,
        },
        y: Interval {
            min: fx_sub_spec(s.centre.y as int, s.radius as int) as i64,
            max: fx_add_spec(s.centre.y as int, s.radius as int) as i64,
        },
        z: Interval {
            min: fx_sub_spec(s.centre.z as int, s.radius as int) as i64,
            max: fx_add_spec(s.centre.z as int, s.radius as int) as i64,
        },
    }
}

/// The first root of the sphere quadratic that the open interval admits,
/// and the resulting record: the nearer root is tried first, then the
/// farther; a candidate whose reported point strays outside the padded
/// bound (a rounding degeneracy) is a silent miss.
pub open spec fn sphere_hit_rec(s: Sphere, r: Ray, ray_t: Interval) -> Option<HitRecord> {
    let oc = v3_sub(s.centre, r.origin);
    let a = v3_len_sq(r.direction);
    let h = v3_dot(r.direction, oc);
    let c = fx_sub_spec(v3_len_sq(oc), fx_mul_spec(s.radius as int, s.radius as int));
    let disc = fx_sub_spec(fx_mul_spec(h, h), fx_mul_spec(a, c));
    if disc < 0 {
        None
    } else {
        let sq = fx_sqrt_spec(disc);
        let r1 = fx_div_spec(fx_sub_spec(h, sq), a);
        let root = if ivl_surrounds(ray_t, r1) {
            r1
        } else {
            fx_div_spec(fx_add_spec(h, sq), a)
        };
        if !ivl_surrounds(ray_t, root) {
            None
        } else {
            let p = ray_at_spec(r, root);
            if !aabb_contains_point_padded(sphere_bound_spec(s), p) {
                None
            } else {
                let outward = v3_div(v3_sub(p, s.centre), s.radius as int);
                Some(
                    HitRecord {
                        p,
                        norm: face_norm_spec(r, outward),
                        mat: s.mat,
                        t: root as i64,
                        front_face: front_face_spec(r, outward),
                    },
                )
            }
        }
    }
}

impl Sphere {
    /// Create a new sphere; a negative radius is clamped to zero.
    pub fn new(centre: Vec3, radius: i64, mat: Material) -> (r: Sphere)
        ensures
            r.centre == centre,
            r.mat == mat,
            r.radius == if radius >= 0 {
                radius
            } else {
                0
            },
    {
        Sphere { centre, radius: if radius >= 0 { radius } else { 0 }, mat }
    }

    /// Check that the sphere is well formed: coordinates within the
    /// scene bound, a nonnegative radius, a physical material.
    pub fn is_wf(&self) -> (r: bool)
        ensures
            r == sphere_wf(*self),
    {
        -B_COORD <= self.centre.x && self.centre.x <= B_COORD && -B_COORD <= self.centre.y
            && self.centre.y <= B_COORD && -B_COORD <= self.centre.z && self.centre.z <= B_COORD
            && 0 <= self.radius && self.radius <= B_COORD && self.mat.is_wf()
    }

    /// The bounding box of the sphere.
    pub fn bound(&self) -> (r: Aabb)
        ensures
            r == sphere_bound_spec(*self),
    {
        Aabb {
            x: Interval {
                min: fx_sub(self.centre.x, self.radius),
                max: fx_add(self.centre.x, self.radius),
            },
            y: Interval {
                min: fx_sub(self.centre.y, self.radius),
                max: fx_add(self.centre.y, self.radius),
            },
            z: Interval {
                min: fx_sub(self.centre.z, self.radius),
                max: fx_add(self.centre.z, self.radius),
            },
        }
    }

    /// Ray / sphere intersection over the open interval `ray_t`, solving
    /// the reduced-discriminant quadratic and trying the nearer root first.
    pub fn hit(&self, r: &Ray, ray_t: Interval) -> (res: Option<HitRecord>)
        requires
            sphere_wf(*self),
        ensures
            res == sphere_hit_rec(*self, *r, ray_t),
    {
        let oc = self.centre.minus(r.origin);
        let a = r.direction.length_squared();
        let h = dot(&r.direction, &oc);
        let c = fx_sub(oc.length_squared(), fx_mul(self.radius, self.radius));
        let discriminant = fx_sub(fx_mul(h, h), fx_mul(a, c));
        if discriminant < 0 {
            return None;
        }
        let sqrtd = fx_sqrt(discriminant);
        let mut root = fx_div(fx_sub(h, sqrtd), a);
        if !ray_t.surrounds(root) {
            root = fx_div(fx_add(h, sqrtd), a);
            if !ray_t.surrounds(root) {
                return None;
            }
        }
        let t = root;
        let p = r.at(root);
        proof {
            lemma_sphere_bound_bounded(*self);
        }
        if !self.bound().contains_point_padded(p) {
            return None;
        }
        let outward_norm = p.minus(self.centre).divide(self.radius);
        let mut rec = HitRecord { t, p, norm: outward_norm, mat: self.mat, front_face: false };
        rec.set_face_norm(r, &outward_norm);
        Some(rec)
    }
}

/// The bound of a well-formed sphere is measured: its endpoints stay
/// within `B_BOX`.
pub proof fn lemma_sphere_bound_bounded(s: Sphere)
    requires
        sphere_wf(s),
    ensures
        aabb_bounded(sphere_bound_spec(s)),
        sphere_bound_spec(s).x.min <= sphere_bound_spec(s).x.max,
        sphere_bound_spec(s).y.min <= sphere_bound_spec(s).y.max,
        sphere_bound_spec(s).z.min <= sphere_bound_spec(s).z.max,
{
}

/// A sphere hit lies strictly inside the queried interval, reports the
/// point the ray reaches at its parameter, keeps that point within the
/// padded sphere bound, and carries the sphere's material.
pub proof fn lemma_sphere_hit_props(s: Sphere, r: Ray, ray_t: Interval)
    ensures
        match sphere_hit_rec(s, r, ray_t) {
            Some(rec) => ivl_surrounds(ray_t, rec.t as int) && rec.p == ray_at_spec(
                r,
                rec.t as int,
            ) && aabb_contains_point_padded(sphere_bound_spec(s), rec.p) && rec.mat == s.mat,
            None => true,
        },
{
}

/// Squared lengths are nonnegative.
pub proof fn lemma_len_sq_nonneg(v: Vec3)
    ensures
        v3_len_sq(v) >= 0,
{
    lemma_fx_sq_nonneg(v.x as int);
    lemma_fx_sq_nonneg(v.y as int);
    lemma_fx_sq_nonneg(v.z as int);
}

/// A fixed-point square is nonnegative.
pub proof fn lemma_fx_sq_nonneg(x: int)
    ensures
        fx_mul_spec(x, x) >= 0,
{
    assert(x * x >= 0) by (nonlinear_arith);
    lemma_flr_bounds(x * x, crate::fixed::SCALE as int);
}

/// Fixed-point division by a nonnegative divisor is monotone in the
/// dividend.
pub proof fn lemma_fx_div_monotone(a1: int, a2: int, b: int)
    requires
        a1 <= a2,
        b >= 0,
    ensures
        fx_div_spec(a1, b) <= fx_div_spec(a2, b),
{
    if b > 0 {
        assert(a1 * crate::fixed::SCALE <= a2 * crate::fixed::SCALE) by (nonlinear_arith)
            requires
                a1 <= a2,
        ;
        lemma_flr_monotone(a1 * crate::fixed::SCALE, a2 * crate::fixed::SCALE, b as int);
    }
}

/// Restriction: shrinking the upper end of the query interval filters the
/// result — the same record comes back when its parameter still fits,
/// and nothing new ever appears.
pub proof fn lemma_sphere_restrict(s: Sphere, r: Ray, lo: i64, hi: i64, hi2: i64)
    requires
        hi2 <= hi,
    ensures
        sphere_hit_rec(s, r, Interval { min: lo, max: hi2 }) == restrict_hit(
            sphere_hit_rec(s, r, Interval { min: lo, max: hi }),
            hi2 as int,
        ),
{
    let i1 = Interval { min: lo, max: hi };
    let i2 = Interval { min: lo, max: hi2 };
    let oc = v3_sub(s.centre, r.origin);
    let a = v3_len_sq(r.direction);
    let h = v3_dot(r.direction, oc);
    let c = fx_sub_spec(v3_len_sq(oc), fx_mul_spec(s.radius as int, s.radius as int));
    let disc = fx_sub_spec(fx_mul_spec(h, h), fx_mul_spec(a, c));
    if disc >= 0 {
        let sq = fx_sqrt_spec(disc);
        lemma_sqrt_nonneg(disc);
        let r1 = fx_div_spec(fx_sub_spec(h, sq), a);
        let r2 = fx_div_spec(fx_add_spec(h, sq), a);
        lemma_len_sq_nonneg(r.direction);
        lemma_fx_div_monotone(fx_sub_spec(h, sq), fx_add_spec(h, sq), a);
        assert(r1 <= r2);
    }
}

/// The fixed-point square root is nonnegative.
pub proof fn lemma_sqrt_nonneg(a: int)
    ensures
        fx_sqrt_spec(a) >= 0,
{
    if a > 0 {
        lemma_sqrt_floor(a * crate::fixed::SCALE);
    }
}

/// Keep an optional hit only when its parameter lies below `hi2`.
pub open spec fn restrict_hit(o: Option<HitRecord>, hi2: int) -> Option<HitRecord> {
    match o {
        Some(rec) => if rec.t < hi2 {
            Some(rec)
        } else {
            None
        },
        None => None,
    }
}

} // verus!
