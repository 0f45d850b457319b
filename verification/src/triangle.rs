//! Triangles, intersected with the Möller–Trumbore algorithm, with optional
//! per-vertex (Phong) normals.

use vstd::prelude::*;

verus! {

use crate::aabb::Aabb;
use crate::aabb::B_COORD;
use crate::aabb::aabb_bounded;
use crate::aabb::aabb_contains_point_padded;
use crate::fixed::FX_ONE;
use crate::fixed::fx_add;
use crate::fixed::fx_add_spec;
use crate::fixed::fx_div;
use crate::fixed::fx_div_spec;
use crate::fixed::fx_mul;
use crate::fixed::fx_mul_spec;
use crate::hit::HitRecord;
use crate::hit::face_norm_spec;
use crate::hit::front_face_spec;
use crate::interval::Interval;
use crate::interval::ivl_surrounds;
use crate::material::Material;
use crate::ray::Ray;
use crate::ray::ray_at_spec;
use crate::sphere::restrict_hit;
use crate::vec3::Vec3;
use crate::vec3::cross;
use crate::vec3::dot;
use crate::vec3::v3_add;
use crate::vec3::v3_cross;
use crate::vec3::v3_dot;
use crate::vec3::v3_scale;
use crate::vec3::v3_sub;
use crate::vec3::v3_unit;

/// A triangle with per-vertex normals (all three equal to the face normal
/// when none were supplied at construction).
#[derive(Clone, Copy, Debug, PartialEq, Eq, Structural)]
pub struct Triangle {
    /// The first vertex.
    pub v0: Vec3,
    /// The second vertex.
    pub v1: Vec3,
    /// The third vertex.
    pub v2: Vec3,
    /// The normal at the first vertex.
    pub n0: Vec3,
    /// The normal at the second vertex.
    pub n1: Vec3,
    /// The normal at the third vertex.
    pub n2: Vec3,
    /// The material of the triangle's surface.
    pub mat: Material,
}

/// A triangle is well formed when its vertices lie within the coordinate
/// bound for scene geometry.
pub open spec fn triangle_wf(t: Triangle) -> bool {
    &&& -B_COORD <= t.v0.x <= B_COORD && -B_COORD <= t.v0.y <= B_COORD && -B_COORD <= t.v0.z
        <= B_COORD
    &&& -B_COORD <= t.v1.x <= B_COORD && -B_COORD <= t.v1.y <= B_COORD && -B_COORD <= t.v1.z
        <= B_COORD
    &&& -B_COORD <= t.v2.x <= B_COORD && -B_COORD <= t.v2.y <= B_COORD && -B_COORD <= t.v2.z
        <= B_COORD
    &&& crate::material::mat_wf(t.mat)
}

/// The smaller of three values.
pub open spec fn min3(a: int, b: int, c: int) -> int {
    if a <= b && a <= c {
        a
    } else if b <= c {
        b
    } else {
        c
    }
}

/// The larger of three values.
pub open spec fn max3(a: int, b: int, c: int) -> int {
    if a >= b && a >= c {
        a
    } else if b >= c {
        b
    } else {
        c
    }
}

/// The per-axis min/max bounding box of the three vertices.
pub open spec fn triangle_bound_spec(t: Triangle) -> Aabb {
    Aabb {
        x: Interval {
            min: min3(t.v0.x as int, t.v1.x as int, t.v2.x as int) as i64,
            max: max3(t.v0.x as int, t.v1.x as int, t.v2.x as int) as i64,
        },
        y: Interval {
            min: min3(t.v0.y as int, t.v1.y as int, t.v2.y as int) as i64,
            max: max3(t.v0.y as int, t.v1.y as int, t.v2.y as int) as i64,
        },
        z: Interval {
            min: min3(t.v0.z as int, t.v1.z as int, t.v2.z as int) as i64,
            max: max3(t.v0.z as int, t.v1.z as int, t.v2.z as int) as i64,
        },
    }
}

/// The normal interpolated at barycentric coordinates `(u, v)`, normalized.
pub open spec fn tri_norm_spec(t: Triangle, u: int, v: int) -> Vec3 {
    let w = FX_ONE - u - v;
    v3_unit(v3_add(v3_add(v3_scale(t.n0, w), v3_scale(t.n1, u)), v3_scale(t.n2, v)))
}

/// Möller–Trumbore intersection: a zero determinant (the ray parallel to
/// the triangle's plane) is a miss, the barycentric coordinates must
/// satisfy `u in [0, 1]`, `v >= 0`, `u + v <= 1`, the parameter must be
/// positive and strictly inside the query interval, and a reported point
/// straying outside the padded bound (a rounding degeneracy) is a miss.
pub open spec fn triangle_hit_rec(t: Triangle, r: Ray, ray_t: Interval) -> Option<HitRecord> {
    let e1 = v3_sub(t.v1, t.v0);
    let e2 = v3_sub(t.v2, t.v0);
    let ray_cross_e2 = v3_cross(r.direction, e2);
    let det = v3_dot(e1, ray_cross_e2);
    if det == 0 {
        None
    } else {
        let inv_det = fx_div_spec(FX_ONE as int, det);
        let sv = v3_sub(r.origin, t.v0);
        let u = fx_mul_spec(v3_dot(sv, ray_cross_e2), inv_det);
        if u < 0 || u > FX_ONE {
            None
        } else {
            let s_cross_e1 = v3_cross(sv, e1);
            let v = fx_mul_spec(inv_det, v3_dot(r.direction, s_cross_e1));
            if v < 0 || fx_add_spec(u, v) > FX_ONE {
                None
            } else {
                let tt = fx_mul_spec(inv_det, v3_dot(e2, s_cross_e1));
                if tt <= 0 || !ivl_surrounds(ray_t, tt) {
                    None
                } else {
                    let p = ray_at_spec(r, tt);
                    if !aabb_contains_point_padded(triangle_bound_spec(t), p) {
                        None
                    } else {
                        let outward = tri_norm_spec(t, u, v);
                        Some(
                            HitRecord {
                                p,
                                norm: face_norm_spec(r, outward),
                                mat: t.mat,
                                t: tt as i64,
                                front_face: front_face_spec(r, outward),
                            },
                        )
                    }
                }
            }
        }
    }
}

impl Triangle {
    /// Create a new triangle; when no normals are supplied, all three take
    /// the flat face normal.
    pub fn new(v0: Vec3, v1: Vec3, v2: Vec3, normals: Option<(Vec3, Vec3, Vec3)>, mat: Material)
        -> (r: Triangle)
        ensures
            r.v0 == v0 && r.v1 == v1 && r.v2 == v2 && r.mat == mat,
            match normals {
                Some(n) => r.n0 == n.0 && r.n1 == n.1 && r.n2 == n.2,
                None => {
                    let n = v3_cross(v3_sub(v1, v0), v3_sub(v2, v1));
                    r.n0 == n && r.n1 == n && r.n2 == n
                },
            },
    {
        match normals {
            Some(n) => Triangle { v0, v1, v2, n0: n.0, n1: n.1, n2: n.2, mat },
            None => {
                let e1 = v1.minus(v0);
                let e2 = v2.minus(v1);
                let n = cross(&e1, &e2);
                Triangle { v0, v1, v2, n0: n, n1: n, n2: n, mat }
            },
        }
    }

    /// Check that the triangle is well formed: vertices within the scene
    /// bound and a physical material.
    pub fn is_wf(&self) -> (r: bool)
        ensures
            r == triangle_wf(*self),
    {
        vert_in_range(&self.v0) && vert_in_range(&self.v1) && vert_in_range(&self.v2)
            && self.mat.is_wf()
    }

    /// The normal interpolated at barycentric coordinates `(u, v)`.
    pub fn get_norm(&self, u: i64, v: i64) -> (r: Vec3)
        requires
            0 <= u <= FX_ONE,
            0 <= v <= FX_ONE,
        ensures
            r == tri_norm_spec(*self, u as int, v as int),
    {
        let w = FX_ONE - u - v;
        self.n0.scale(w).plus(self.n1.scale(u)).plus(self.n2.scale(v)).unit()
    }

    /// The per-axis min/max bounding box of the three vertices.
    pub fn bound(&self) -> (r: Aabb)
        ensures
            r == triangle_bound_spec(*self),
    {
        Aabb {
            x: Interval {
                min: min3_exec(self.v0.x, self.v1.x, self.v2.x),
                max: max3_exec(self.v0.x, self.v1.x, self.v2.x),
            },
            y: Interval {
                min: min3_exec(self.v0.y, self.v1.y, self.v2.y),
                max: max3_exec(self.v0.y, self.v1.y, self.v2.y),
            },
            z: Interval {
                min: min3_exec(self.v0.z, self.v1.z, self.v2.z),
                max: max3_exec(self.v0.z, self.v1.z, self.v2.z),
            },
        }
    }

    /// Möller–Trumbore ray / triangle intersection over the open interval.
    pub fn hit(&self, r: &Ray, ray_t: Interval) -> (res: Option<HitRecord>)
        requires
            triangle_wf(*self),
        ensures
            res == triangle_hit_rec(*self, *r, ray_t),
    {
        let e1 = self.v1.minus(self.v0);
        let e2 = self.v2.minus(self.v0);
        let ray_cross_e2 = cross(&r.direction, &e2);
        let det = dot(&e1, &ray_cross_e2);
        if det == 0 {
            return None;
        }
        let inv_det = fx_div(FX_ONE, det);
        let sv = r.origin.minus(self.v0);
        let u = fx_mul(dot(&sv, &ray_cross_e2), inv_det);
        if u < 0 || u > FX_ONE {
            return None;
        }
        let s_cross_e1 = cross(&sv, &e1);
        let v = fx_mul(inv_det, dot(&r.direction, &s_cross_e1));
        if v < 0 || fx_add(u, v) > FX_ONE {
            return None;
        }
        let t = fx_mul(inv_det, dot(&e2, &s_cross_e1));
        if t <= 0 || !ray_t.surrounds(t) {
            return None;
        }
        let p = r.at(t);
        proof {
            lemma_triangle_bound_bounded(*self);
        }
        if !self.bound().contains_point_padded(p) {
            return None;
        }
        let outward = self.get_norm(u, v);
        let mut rec = HitRecord { p, norm: outward, mat: self.mat, t, front_face: true };
        rec.set_face_norm(r, &outward);
        Some(rec)
    }
}

/// One vertex of `Triangle::is_wf`.
fn vert_in_range(v: &Vec3) -> (r: bool)
    ensures
        r == (-B_COORD <= v.x <= B_COORD && -B_COORD <= v.y <= B_COORD && -B_COORD <= v.z
            <= B_COORD),
{
    -B_COORD <= v.x && v.x <= B_COORD && -B_COORD <= v.y && v.y <= B_COORD && -B_COORD <= v.z
        && v.z <= B_COORD
}

/// The smaller of three values.
fn min3_exec(a: i64, b: i64, c: i64) -> (r: i64)
    ensures
        r as int == min3(a as int, b as int, c as int),
{
    if a <= b && a <= c {
        a
    } else if b <= c {
        b
    } else {
        c
    }
}

/// The larger of three values.
fn max3_exec(a: i64, b: i64, c: i64) -> (r: i64)
    ensures
        r as int == max3(a as int, b as int, c as int),
{
    if a >= b && a >= c {
        a
    } else if b >= c {
        b
    } else {
        c
    }
}

/// The bound of a well-formed triangle is measured and nonempty.
pub proof fn lemma_triangle_bound_bounded(t: Triangle)
    requires
        triangle_wf(t),
    ensures
        aabb_bounded(triangle_bound_spec(t)),
        triangle_bound_spec(t).x.min <= triangle_bound_spec(t).x.max,
        triangle_bound_spec(t).y.min <= triangle_bound_spec(t).y.max,
        triangle_bound_spec(t).z.min <= triangle_bound_spec(t).z.max,
{
}

/// A triangle hit lies strictly inside the queried interval, reports the
/// point the ray reaches at its parameter, keeps that point within the
/// padded triangle bound, and carries the triangle's material.
pub proof fn lemma_triangle_hit_props(t: Triangle, r: Ray, ray_t: Interval)
    ensures
        match triangle_hit_rec(t, r, ray_t) {
            Some(rec) => ivl_surrounds(ray_t, rec.t as int) && rec.p == ray_at_spec(
                r,
                rec.t as int,
            ) && aabb_contains_point_padded(triangle_bound_spec(t), rec.p) && rec.mat == t.mat,
            None => true,
        },
{
}

/// Restriction: shrinking the upper end of the query interval filters the
/// result, exactly as for the sphere.
pub proof fn lemma_triangle_restrict(t: Triangle, r: Ray, lo: i64, hi: i64, hi2: i64)
    requires
        hi2 <= hi,
    ensures
        triangle_hit_rec(t, r, Interval { min: lo, max: hi2 }) == restrict_hit(
            triangle_hit_rec(t, r, Interval { min: lo, max: hi }),
            hi2 as int,
        ),
{
}

} // verus!
