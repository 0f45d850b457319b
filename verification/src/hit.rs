//! Hit records: the result of a successful ray / surface intersection,
//! oriented so the stored normal always faces against the incoming ray.

use vstd::prelude::*;

verus! {

use crate::aabb::Aabb;
use crate::aabb::B_ORG;
use crate::aabb::aabb_encloses;
use crate::aabb::aabb_bounded;
use crate::aabb::aabb_union;
use crate::bvh::BVHTree;
use crate::fixed::FX_MAX;
use crate::hit_list::HittableList;
use crate::aabb::aabb_contains_point_padded;
use crate::interval::Interval;
use crate::interval::ivl_surrounds;
use crate::material::Material;
use crate::mesh::Mesh;
use crate::ray::Ray;
use crate::sphere::Sphere;
use crate::sphere::sphere_bound_spec;
use crate::sphere::restrict_hit;
use crate::sphere::sphere_hit_rec;
use crate::sphere::sphere_wf;
use crate::triangle::Triangle;
use crate::triangle::triangle_bound_spec;
use crate::triangle::triangle_hit_rec;
use crate::triangle::triangle_wf;
use crate::vec3::Vec3;
use crate::vec3::dot;
use crate::vec3::v3_dot;
use crate::vec3::v3_neg;

/// A record of a ray hitting a surface.
#[derive(Clone, Copy, Debug, PartialEq, Eq, Structural)]
pub struct HitRecord {
    /// The point at which the hit occurred, in world space.
    pub p: Vec3,
    /// The normal of the surface that was hit, facing against the ray.
    pub norm: Vec3,
    /// The material of the surface that was hit.
    pub mat: Material,
    /// The ray parameter at which the hit occurred.
    pub t: i64,
    /// Whether the hit was on the front face.
    pub front_face: bool,
}

/// The face flag `set_face_norm` derives: the hit is front-facing when the
/// ray runs against the outward normal.
pub open spec fn front_face_spec(r: Ray, outward_norm: Vec3) -> bool {
    v3_dot(r.direction, outward_norm) < 0
}

/// The oriented normal `set_face_norm` stores.
pub open spec fn face_norm_spec(r: Ray, outward_norm: Vec3) -> Vec3 {
    if front_face_spec(r, outward_norm) {
        outward_norm
    } else {
        v3_neg(outward_norm)
    }
}

impl HitRecord {
    /// Orient the stored normal against the incident ray: keep the outward
    /// normal on a front-face hit, flip it on a back-face hit.
    pub fn set_face_norm(&mut self, r: &Ray, outward_norm: &Vec3)
        ensures
            final(self).front_face == front_face_spec(*r, *outward_norm),
            final(self).norm == face_norm_spec(*r, *outward_norm),
            final(self).p == old(self).p,
            final(self).mat == old(self).mat,
            final(self).t == old(self).t,
    {
        self.front_face = dot(&r.direction, outward_norm) < 0;
        self.norm = if self.front_face {
            *outward_norm
        } else {
            outward_norm.negate()
        };
    }
}

/// Anything a ray can hit, as a closed tagged union: the two leaf shapes,
/// the flat scene container, a mesh, and a BVH node — the last three hold
/// objects of this same type again, so meshes nest inside scenes inside
/// scenes without special cases.
#[derive(Debug)]
pub enum Object {
    Sphere(Sphere),
    Triangle(Triangle),
    List(HittableList),
    Mesh(Mesh),
    Bvh(BVHTree),
}

/// A structural height for objects: leaf shapes are flat, containers are
/// one taller than their contents.  This is the termination measure for
/// every recursive definition over the object family.
pub open spec fn obj_height(o: Object) -> nat
    decreases o,
{
    match o {
        Object::Sphere(_) => 0,
        Object::Triangle(_) => 0,
        Object::List(l) => 1 + seq_height(l.objects@),
        Object::Mesh(m) => 1 + tree_height(m.bvh),
        Object::Bvh(n) => 1 + tree_height(n),
    }
}

/// The summed height of a sequence of objects, one more than the sum of
/// the elements' heights per element.
pub open spec fn seq_height(s: Seq<Object>) -> nat
    decreases s,
{
    if s.len() == 0 {
        0
    } else {
        1 + obj_height(s[0]) + seq_height(s.subrange(1, s.len() as int))
    }
}

/// The height of a BVH node: above its own objects and both subtrees.
pub open spec fn tree_height(n: BVHTree) -> nat
    decreases n,
{
    1 + seq_height(n.objects.objects@) + opt_tree_height(n.left) + opt_tree_height(n.right)
}

/// The height of an optional subtree.
pub open spec fn opt_tree_height(c: Option<Box<BVHTree>>) -> nat
    decreases c,
{
    match c {
        Some(t) => 1 + tree_height(*t),
        None => 0,
    }
}

/// Every object reachable from a BVH node, flattened in the order: own
/// objects, left subtree, right subtree.
pub open spec fn tree_objs(n: BVHTree) -> Seq<Object>
    decreases n,
{
    n.objects.objects@ + opt_tree_objs(n.left) + opt_tree_objs(n.right)
}

/// The flattened objects of an optional subtree.
pub open spec fn opt_tree_objs(c: Option<Box<BVHTree>>) -> Seq<Object>
    decreases c,
{
    match c {
        Some(t) => tree_objs(*t),
        None => Seq::empty(),
    }
}

/// The parameter of an optional hit, the one part of a record every
/// traversal order agrees on.
pub open spec fn hit_t(o: Option<HitRecord>) -> Option<int> {
    match o {
        Some(rec) => Some(rec.t as int),
        None => None,
    }
}

/// The smaller of two optional parameters, `None` acting as no hit.
pub open spec fn opt_min_t(a: Option<int>, b: Option<int>) -> Option<int> {
    match (a, b) {
        (Some(x), Some(y)) => if x <= y {
            Some(x)
        } else {
            Some(y)
        },
        (Some(x), None) => Some(x),
        (None, y) => y,
    }
}

/// The nearest hit an object yields within the open interval `ray_t`:
/// leaf shapes answer directly, containers behave exactly as the linear
/// scan over their contents — for a BVH node that statement *is* the
/// claim that acceleration never changes the result.
pub open spec fn obj_hit_spec(o: Object, r: Ray, ray_t: Interval) -> Option<HitRecord>
    decreases obj_height(o),
    via obj_hit_spec_dec
{
    match o {
        Object::Sphere(s) => sphere_hit_rec(s, r, ray_t),
        Object::Triangle(t) => triangle_hit_rec(t, r, ray_t),
        Object::List(l) => seq_scan_spec(l.objects@, r, ray_t),
        Object::Mesh(m) => seq_scan_spec(tree_objs(m.bvh), r, ray_t),
        Object::Bvh(n) => seq_scan_spec(tree_objs(n), r, ray_t),
    }
}

#[via_fn]
proof fn obj_hit_spec_dec(o: Object, r: Ray, ray_t: Interval) {
    match o {
        Object::Mesh(m) => lemma_tree_flat_height(m.bvh),
        Object::Bvh(n) => lemma_tree_flat_height(n),
        _ => {},
    }
}

/// The left-to-right linear scan: each object is queried over the valid
/// interval shrunk to the closest hit found so far, so a later object can
/// replace the record only with a strictly closer hit.
pub open spec fn seq_scan_spec(s: Seq<Object>, r: Ray, ray_t: Interval) -> Option<HitRecord>
    decreases seq_height(s),
{
    if s.len() == 0 {
        None
    } else {
        let rest = s.subrange(1, s.len() as int);
        match obj_hit_spec(s[0], r, ray_t) {
            None => seq_scan_spec(rest, r, ray_t),
            Some(rec) => match seq_scan_spec(rest, r, Interval { min: ray_t.min, max: rec.t }) {
                None => Some(rec),
                Some(rec2) => Some(rec2),
            },
        }
    }
}

/// The minimum hit parameter over a sequence of objects, each queried
/// over the full interval: the order-free statement the scan and the BVH
/// traversal both realize.
pub open spec fn seq_min_t(s: Seq<Object>, r: Ray, ray_t: Interval) -> Option<int>
    decreases seq_height(s),
{
    if s.len() == 0 {
        None
    } else {
        opt_min_t(
            hit_t(obj_hit_spec(s[0], r, ray_t)),
            seq_min_t(s.subrange(1, s.len() as int), r, ray_t),
        )
    }
}

/// The record is one some shape in `o` genuinely produces for this ray
/// and interval.
pub open spec fn obj_yields(o: Object, r: Ray, ray_t: Interval, rec: HitRecord) -> bool
    decreases obj_height(o),
    via obj_yields_dec
{
    match o {
        Object::Sphere(s) => sphere_hit_rec(s, r, ray_t) == Some(rec),
        Object::Triangle(t) => triangle_hit_rec(t, r, ray_t) == Some(rec),
        Object::List(l) => seq_yields(l.objects@, r, ray_t, rec),
        Object::Mesh(m) => seq_yields(tree_objs(m.bvh), r, ray_t, rec),
        Object::Bvh(n) => seq_yields(tree_objs(n), r, ray_t, rec),
    }
}

#[via_fn]
proof fn obj_yields_dec(o: Object, r: Ray, ray_t: Interval, rec: HitRecord) {
    match o {
        Object::Mesh(m) => lemma_tree_flat_height(m.bvh),
        Object::Bvh(n) => lemma_tree_flat_height(n),
        _ => {},
    }
}

/// Some member of the sequence yields the record.
pub open spec fn seq_yields(s: Seq<Object>, r: Ray, ray_t: Interval, rec: HitRecord) -> bool
    decreases seq_height(s),
    via seq_yields_dec
{
    exists|i: int| 0 <= i < s.len() && obj_yields(#[trigger] s[i], r, ray_t, rec)
}

#[via_fn]
proof fn seq_yields_dec(s: Seq<Object>, r: Ray, ray_t: Interval, rec: HitRecord) {
    assert forall|i: int| 0 <= i < s.len() implies obj_height(#[trigger] s[i]) < seq_height(s) by {
        lemma_seq_height_index(s, i);
    }
}

/// The bounding box an object reports: shapes compute it, containers take
/// the union of their contents, and a BVH node answers with its stored box.
pub open spec fn obj_bound(o: Object) -> Aabb
    decreases obj_height(o),
{
    match o {
        Object::Sphere(s) => sphere_bound_spec(s),
        Object::Triangle(t) => triangle_bound_spec(t),
        Object::List(l) => seq_bound(l.objects@),
        Object::Mesh(m) => m.bvh.aabb,
        Object::Bvh(n) => n.aabb,
    }
}

/// The union of the bounds of a sequence of objects, starting from the
/// empty box.
pub open spec fn seq_bound(s: Seq<Object>) -> Aabb
    decreases seq_height(s),
{
    if s.len() == 0 {
        crate::aabb::aabb_empty()
    } else {
        aabb_union(obj_bound(s[0]), seq_bound(s.subrange(1, s.len() as int)))
    }
}

/// Well-formedness of an object: shapes keep their coordinates within the
/// scene bound, containers hold well-formed objects, and a BVH node's
/// stored box is measured and encloses everything beneath it — the
/// structural invariant the builder establishes and traversal relies on.
pub open spec fn obj_wf(o: Object) -> bool
    decreases obj_height(o),
{
    match o {
        Object::Sphere(s) => sphere_wf(s),
        Object::Triangle(t) => triangle_wf(t),
        Object::List(l) => seq_wf(l.objects@),
        Object::Mesh(m) => tree_wf(m.bvh),
        Object::Bvh(n) => tree_wf(n),
    }
}

/// Every member of the sequence is well formed.
pub open spec fn seq_wf(s: Seq<Object>) -> bool
    decreases seq_height(s),
    via seq_wf_dec
{
    forall|i: int| 0 <= i < s.len() ==> obj_wf(#[trigger] s[i])
}

#[via_fn]
proof fn seq_wf_dec(s: Seq<Object>) {
    assert forall|i: int| 0 <= i < s.len() implies obj_height(#[trigger] s[i]) < seq_height(s) by {
        lemma_seq_height_index(s, i);
    }
}

/// The BVH invariant: the node's box is measured, encloses the bounds of
/// its own objects and the boxes of both children, and both children are
/// themselves well formed.
pub open spec fn tree_wf(n: BVHTree) -> bool
    decreases tree_height(n),
{
    &&& seq_wf(n.objects.objects@)
    &&& aabb_bounded(n.aabb)
    &&& aabb_encloses(n.aabb, seq_bound(n.objects.objects@))
    &&& match n.left {
        Some(c) => tree_wf(*c) && aabb_encloses(n.aabb, c.aabb),
        None => true,
    }
    &&& match n.right {
        Some(c) => tree_wf(*c) && aabb_encloses(n.aabb, c.aabb),
        None => true,
    }
}

/// A ray whose origin the traversal's box-test soundness argument covers.
pub open spec fn ray_wf(r: Ray) -> bool {
    &&& -B_ORG <= r.origin.x <= B_ORG
    &&& -B_ORG <= r.origin.y <= B_ORG
    &&& -B_ORG <= r.origin.z <= B_ORG
}

/// Sequence height is additive over concatenation.
pub proof fn lemma_seq_height_concat(a: Seq<Object>, b: Seq<Object>)
    ensures
        seq_height(a + b) == seq_height(a) + seq_height(b),
    decreases a.len(),
{
    if a.len() == 0 {
        assert(a + b =~= b);
    } else {
        assert((a + b)[0] == a[0]);
        assert((a + b).subrange(1, (a + b).len() as int) =~= a.subrange(1, a.len() as int) + b);
        lemma_seq_height_concat(a.subrange(1, a.len() as int), b);
    }
}

/// Every element's height is strictly below its sequence's height.
pub proof fn lemma_seq_height_index(s: Seq<Object>, i: int)
    requires
        0 <= i < s.len(),
    ensures
        obj_height(s[i]) < seq_height(s),
    decreases s.len(),
{
    if i == 0 {
    } else {
        lemma_seq_height_index(s.subrange(1, s.len() as int), i - 1);
        assert(s.subrange(1, s.len() as int)[i - 1] == s[i]);
    }
}

impl Object {
    /// The bounding box the object reports.
    pub fn bound(&self) -> (r: Aabb)
        ensures
            r == obj_bound(*self),
        decreases obj_height(*self),
    {
        match self {
            Object::Sphere(s) => s.bound(),
            Object::Triangle(t) => t.bound(),
            Object::List(l) => l.bound(),
            Object::Mesh(m) => m.bvh.aabb,
            Object::Bvh(n) => n.aabb,
        }
    }

    /// Check, recursively, that the object is well formed: shapes within
    /// the scene coordinate bound with physical materials, and BVH boxes
    /// measured and enclosing everything beneath them.
    pub fn check_wf(&self) -> (r: bool)
        ensures
            r == obj_wf(*self),
        decreases obj_height(*self),
    {
        match self {
            Object::Sphere(s) => s.is_wf(),
            Object::Triangle(t) => t.is_wf(),
            Object::List(l) => check_seq_wf(&l.objects),
            Object::Mesh(m) => m.bvh.check_wf(),
            Object::Bvh(n) => n.check_wf(),
        }
    }

    /// Test the ray against the object over the allowed open interval and
    /// return at most one nearest hit within it: the returned parameter is
    /// exactly the one the object's specification demands, and the record
    /// is genuinely produced by a shape within the object.
    pub fn hit(&self, r: &Ray, ray_t: Interval) -> (res: Option<HitRecord>)
        requires
            obj_wf(*self),
            ray_wf(*r),
            ray_t.min >= 0,
        ensures
            hit_t(res) == hit_t(obj_hit_spec(*self, *r, ray_t)),
            match res {
                Some(rec) => obj_yields(*self, *r, ray_t, rec) && ivl_surrounds(
                    ray_t,
                    rec.t as int,
                ),
                None => true,
            },
        decreases obj_height(*self),
    {
        match self {
            Object::Sphere(s) => {
                let res = s.hit(r, ray_t);
                proof {
                    crate::sphere::lemma_sphere_hit_props(*s, *r, ray_t);
                }
                res
            },
            Object::Triangle(t) => {
                let res = t.hit(r, ray_t);
                proof {
                    crate::triangle::lemma_triangle_hit_props(*t, *r, ray_t);
                }
                res
            },
            Object::List(l) => l.hit(r, ray_t),
            Object::Mesh(m) => {
                proof {
                    lemma_tree_flat_height(m.bvh);
                }
                m.bvh.hit(r, ray_t)
            },
            Object::Bvh(n) => n.hit(r, ray_t),
        }
    }
}

/// Check that every object of a vector is well formed.
pub fn check_seq_wf(objects: &Vec<Object>) -> (r: bool)
    ensures
        r == seq_wf(objects@),
    decreases seq_height(objects@),
{
    let n = objects.len();
    let mut i: usize = 0;
    while i < n
        invariant
            i <= n,
            n == objects@.len(),
            forall|j: int| 0 <= j < i ==> obj_wf(#[trigger] objects@[j]),
        decreases n - i,
    {
        proof {
            lemma_seq_height_index(objects@, i as int);
        }
        if !objects[i].check_wf() {
            return false;
        }
        i = i + 1;
    }
    true
}

/// Restriction at the object level: shrinking the upper end of the query
/// interval filters the result.  The record that survives is identical.
pub proof fn lemma_obj_restrict(o: Object, r: Ray, lo: i64, hi: i64, hi2: i64)
    requires
        hi2 <= hi,
    ensures
        obj_hit_spec(o, r, Interval { min: lo, max: hi2 }) == restrict_hit(
            obj_hit_spec(o, r, Interval { min: lo, max: hi }),
            hi2 as int,
        ),
    decreases obj_height(o),
{
    match o {
        Object::Sphere(s) => crate::sphere::lemma_sphere_restrict(s, r, lo, hi, hi2),
        Object::Triangle(t) => crate::triangle::lemma_triangle_restrict(t, r, lo, hi, hi2),
        Object::List(l) => lemma_seq_restrict(l.objects@, r, lo, hi, hi2),
        Object::Mesh(m) => {
            lemma_tree_flat_height(m.bvh);
            lemma_seq_restrict(tree_objs(m.bvh), r, lo, hi, hi2);
        },
        Object::Bvh(n) => {
            lemma_tree_flat_height(n);
            lemma_seq_restrict(tree_objs(n), r, lo, hi, hi2);
        },
    }
}

/// Restriction at the sequence level, for the shrinking scan.
pub proof fn lemma_seq_restrict(s: Seq<Object>, r: Ray, lo: i64, hi: i64, hi2: i64)
    requires
        hi2 <= hi,
    ensures
        seq_scan_spec(s, r, Interval { min: lo, max: hi2 }) == restrict_hit(
            seq_scan_spec(s, r, Interval { min: lo, max: hi }),
            hi2 as int,
        ),
    decreases seq_height(s),
{
    if s.len() == 0 {
    } else {
        let rest = s.subrange(1, s.len() as int);
        lemma_obj_restrict(s[0], r, lo, hi, hi2);
        match obj_hit_spec(s[0], r, Interval { min: lo, max: hi }) {
            None => {
                lemma_seq_restrict(rest, r, lo, hi, hi2);
            },
            Some(rec) => {
                if rec.t < hi2 {
                    let inner = seq_scan_spec(rest, r, Interval { min: lo, max: rec.t });
                    match inner {
                        Some(rec2) => {
                            lemma_seq_props(rest, r, Interval { min: lo, max: rec.t });
                        },
                        None => {},
                    }
                } else {
                    lemma_seq_restrict(rest, r, lo, rec.t, hi2);
                }
            },
        }
    }
}

/// A hit an object yields over a narrower interval it also yields over a
/// wider one with the same lower end.
pub proof fn lemma_obj_yields_lift(o: Object, r: Ray, lo: i64, hi2: i64, hi: i64, rec: HitRecord)
    requires
        hi2 <= hi,
        obj_yields(o, r, Interval { min: lo, max: hi2 }, rec),
    ensures
        obj_yields(o, r, Interval { min: lo, max: hi }, rec),
    decreases obj_height(o),
{
    match o {
        Object::Sphere(s) => crate::sphere::lemma_sphere_restrict(s, r, lo, hi, hi2),
        Object::Triangle(t) => crate::triangle::lemma_triangle_restrict(t, r, lo, hi, hi2),
        Object::List(l) => lemma_seq_yields_lift(l.objects@, r, lo, hi2, hi, rec),
        Object::Mesh(m) => {
            lemma_tree_flat_height(m.bvh);
            lemma_seq_yields_lift(tree_objs(m.bvh), r, lo, hi2, hi, rec);
        },
        Object::Bvh(n) => {
            lemma_tree_flat_height(n);
            lemma_seq_yields_lift(tree_objs(n), r, lo, hi2, hi, rec);
        },
    }
}

/// The sequence-level counterpart of `lemma_obj_yields_lift`.
pub proof fn lemma_seq_yields_lift(
    s: Seq<Object>,
    r: Ray,
    lo: i64,
    hi2: i64,
    hi: i64,
    rec: HitRecord,
)
    requires
        hi2 <= hi,
        seq_yields(s, r, Interval { min: lo, max: hi2 }, rec),
    ensures
        seq_yields(s, r, Interval { min: lo, max: hi }, rec),
    decreases seq_height(s),
{
    let i = choose|i: int|
        0 <= i < s.len() && obj_yields(#[trigger] s[i], r, Interval { min: lo, max: hi2 }, rec);
    lemma_seq_height_index(s, i);
    lemma_obj_yields_lift(s[i], r, lo, hi2, hi, rec);
    assert(0 <= i < s.len() && obj_yields(s[i], r, Interval { min: lo, max: hi }, rec));
}

/// A hit the object spec reports lies strictly inside the queried
/// interval and is genuinely yielded by some shape within the object.
pub proof fn lemma_obj_props(o: Object, r: Ray, ray_t: Interval)
    ensures
        match obj_hit_spec(o, r, ray_t) {
            Some(rec) => ivl_surrounds(ray_t, rec.t as int) && obj_yields(o, r, ray_t, rec),
            None => true,
        },
    decreases obj_height(o),
{
    match o {
        Object::Sphere(s) => crate::sphere::lemma_sphere_hit_props(s, r, ray_t),
        Object::Triangle(t) => crate::triangle::lemma_triangle_hit_props(t, r, ray_t),
        Object::List(l) => lemma_seq_props(l.objects@, r, ray_t),
        Object::Mesh(m) => {
            lemma_tree_flat_height(m.bvh);
            lemma_seq_props(tree_objs(m.bvh), r, ray_t);
        },
        Object::Bvh(n) => {
            lemma_tree_flat_height(n);
            lemma_seq_props(tree_objs(n), r, ray_t);
        },
    }
}

/// The sequence-level counterpart of `lemma_obj_props`.
pub proof fn lemma_seq_props(s: Seq<Object>, r: Ray, ray_t: Interval)
    ensures
        match seq_scan_spec(s, r, ray_t) {
            Some(rec) => ivl_surrounds(ray_t, rec.t as int) && seq_yields(s, r, ray_t, rec),
            None => true,
        },
    decreases seq_height(s),
{
    if s.len() == 0 {
    } else {
        let rest = s.subrange(1, s.len() as int);
        lemma_obj_props(s[0], r, ray_t);
        match obj_hit_spec(s[0], r, ray_t) {
            None => {
                lemma_seq_props(rest, r, ray_t);
                match seq_scan_spec(rest, r, ray_t) {
                    Some(rec) => {
                        let i = choose|i: int|
                            0 <= i < rest.len() && obj_yields(#[trigger] rest[i], r, ray_t, rec);
                        assert(s[i + 1] == rest[i]);
                        assert(obj_yields(s[i + 1], r, ray_t, rec));
                    },
                    None => {},
                }
            },
            Some(rec) => {
                let shrunk = Interval { min: ray_t.min, max: rec.t };
                lemma_seq_props(rest, r, shrunk);
                match seq_scan_spec(rest, r, shrunk) {
                    None => {
                        assert(obj_yields(s[0], r, ray_t, rec));
                    },
                    Some(rec2) => {
                        lemma_seq_yields_lift(rest, r, ray_t.min, rec.t, ray_t.max, rec2);
                        let i = choose|i: int|
                            0 <= i < rest.len() && obj_yields(#[trigger] rest[i], r, ray_t, rec2);
                        assert(s[i + 1] == rest[i]);
                        assert(obj_yields(s[i + 1], r, ray_t, rec2));
                    },
                }
            },
        }
    }
}

/// The shrinking scan finds exactly the minimum hit parameter that
/// querying every object over the full interval would find.
pub proof fn lemma_scan_min(s: Seq<Object>, r: Ray, ray_t: Interval)
    ensures
        hit_t(seq_scan_spec(s, r, ray_t)) == seq_min_t(s, r, ray_t),
    decreases seq_height(s),
{
    if s.len() == 0 {
    } else {
        let rest = s.subrange(1, s.len() as int);
        lemma_obj_props(s[0], r, ray_t);
        match obj_hit_spec(s[0], r, ray_t) {
            None => {
                lemma_scan_min(rest, r, ray_t);
            },
            Some(rec) => {
                lemma_scan_min(rest, r, ray_t);
                lemma_seq_restrict(rest, r, ray_t.min, ray_t.max, rec.t);
            },
        }
    }
}

/// Appending one object to a scanned sequence continues the scan: the
/// new object is queried over the interval shrunk to the best hit so far.
pub proof fn lemma_scan_snoc(s: Seq<Object>, x: Object, r: Ray, ray_t: Interval)
    ensures
        seq_scan_spec(s.push(x), r, ray_t) == (match seq_scan_spec(s, r, ray_t) {
            None => obj_hit_spec(x, r, ray_t),
            Some(rec) => match obj_hit_spec(x, r, Interval { min: ray_t.min, max: rec.t }) {
                None => Some(rec),
                Some(rec2) => Some(rec2),
            },
        }),
    decreases seq_height(s),
{
    reveal_with_fuel(seq_scan_spec, 3);
    if s.len() == 0 {
        assert(s.push(x)[0] == x);
        assert(s.push(x).subrange(1, 1) =~= Seq::<Object>::empty());
    } else {
        let rest = s.subrange(1, s.len() as int);
        assert(s.push(x)[0] == s[0]);
        assert(s.push(x).subrange(1, s.len() as int + 1) =~= rest.push(x));
        match obj_hit_spec(s[0], r, ray_t) {
            None => {
                lemma_scan_snoc(rest, x, r, ray_t);
            },
            Some(rec) => {
                lemma_scan_snoc(rest, x, r, Interval { min: ray_t.min, max: rec.t });
            },
        }
    }
}

/// The minimum hit parameter distributes over concatenation.
pub proof fn lemma_min_concat(a: Seq<Object>, b: Seq<Object>, r: Ray, ray_t: Interval)
    ensures
        seq_min_t(a + b, r, ray_t) == opt_min_t(
            seq_min_t(a, r, ray_t),
            seq_min_t(b, r, ray_t),
        ),
    decreases a.len(),
{
    if a.len() == 0 {
        assert(a + b =~= b);
    } else {
        assert((a + b)[0] == a[0]);
        assert((a + b).subrange(1, (a + b).len() as int) =~= a.subrange(1, a.len() as int) + b);
        lemma_min_concat(a.subrange(1, a.len() as int), b, r, ray_t);
    }
}

/// The minimum over a single object is that object's hit parameter.
proof fn lemma_min_t_singleton(x: Object, r: Ray, ray_t: Interval)
    ensures
        seq_min_t(seq![x], r, ray_t) == hit_t(obj_hit_spec(x, r, ray_t)),
{
    reveal_with_fuel(seq_min_t, 2);
    assert(seq![x].subrange(1, 1) =~= Seq::<Object>::empty());
}

/// Removing one element splits the minimum: the minimum over a sequence
/// is the minimum of that element's hit and the minimum over the rest.
#[verifier::spinoff_prover]
#[verifier::rlimit(100)]
pub proof fn lemma_min_t_remove(s: Seq<Object>, j: int, r: Ray, ray_t: Interval)
    requires
        0 <= j < s.len(),
    ensures
        seq_min_t(s, r, ray_t) == opt_min_t(
            hit_t(obj_hit_spec(s[j], r, ray_t)),
            seq_min_t(s.remove(j), r, ray_t),
        ),
{
    let a = s.subrange(0, j);
    let mid = seq![s[j]];
    let b = s.subrange(j + 1, s.len() as int);
    let x = hit_t(obj_hit_spec(s[j], r, ray_t));
    assert(seq_min_t(s, r, ray_t) == opt_min_t(
        seq_min_t(a + mid, r, ray_t),
        seq_min_t(b, r, ray_t),
    )) by {
        assert(s =~= (a + mid) + b);
        lemma_min_concat(a + mid, b, r, ray_t);
    }
    assert(seq_min_t(a + mid, r, ray_t) == opt_min_t(seq_min_t(a, r, ray_t), x)) by {
        lemma_min_concat(a, mid, r, ray_t);
        lemma_min_t_singleton(s[j], r, ray_t);
    }
    assert(seq_min_t(s.remove(j), r, ray_t) == opt_min_t(
        seq_min_t(a, r, ray_t),
        seq_min_t(b, r, ray_t),
    )) by {
        assert(s.remove(j) =~= a + b);
        lemma_min_concat(a, b, r, ray_t);
    }
}

/// The minimum hit parameter depends only on which objects are present,
/// not on their order: sequences with equal multisets agree.
pub proof fn lemma_min_t_multiset(s1: Seq<Object>, s2: Seq<Object>, r: Ray, ray_t: Interval)
    requires
        s1.to_multiset() == s2.to_multiset(),
    ensures
        seq_min_t(s1, r, ray_t) == seq_min_t(s2, r, ray_t),
    decreases s1.len(),
{
    broadcast use vstd::seq_lib::group_to_multiset_ensures;
    broadcast use vstd::multiset::group_multiset_axioms;

    if s1.len() == 0 {
        assert(s2.to_multiset().len() == 0);
        assert(s2.len() == 0);
    } else {
        let x = s1[0];
        assert(s1.contains(x));
        assert(s2.to_multiset().count(x) > 0);
        assert(s2.contains(x));
        let j = choose|j: int| 0 <= j < s2.len() && s2[j] == x;
        lemma_min_t_remove(s1, 0, r, ray_t);
        lemma_min_t_remove(s2, j, r, ray_t);
        assert(s1.remove(0).to_multiset() == s1.to_multiset().remove(x));
        assert(s2.remove(j).to_multiset() == s2.to_multiset().remove(x));
        lemma_min_t_multiset(s1.remove(0), s2.remove(j), r, ray_t);
        assert(s1.remove(0) =~= s1.subrange(1, s1.len() as int));
    }
}

/// The acceleration structure never changes the result, only the speed:
/// against any ray and any open interval, a BVH whose reachable objects
/// are exactly (as a multiset) the objects of a flat container finds a
/// hit at exactly the parameter the container's brute-force linear scan
/// finds — both miss together, and both agree on the nearest parameter.
pub proof fn lemma_bvh_matches_list(tree: BVHTree, list: HittableList, r: Ray, ray_t: Interval)
    requires
        tree_objs(tree).to_multiset() == list.objects@.to_multiset(),
    ensures
        hit_t(obj_hit_spec(Object::Bvh(tree), r, ray_t)) == hit_t(
            obj_hit_spec(Object::List(list), r, ray_t),
        ),
{
    lemma_scan_min(tree_objs(tree), r, ray_t);
    lemma_scan_min(list.objects@, r, ray_t);
    lemma_min_t_multiset(tree_objs(tree), list.objects@, r, ray_t);
}

/// The union of the members' bounds encloses each member's bound.
pub proof fn lemma_seq_bound_encloses(s: Seq<Object>, i: int)
    requires
        0 <= i < s.len(),
    ensures
        aabb_encloses(seq_bound(s), obj_bound(s[i])),
    decreases s.len(),
{
    if i == 0 {
    } else {
        lemma_seq_bound_encloses(s.subrange(1, s.len() as int), i - 1);
        assert(s.subrange(1, s.len() as int)[i - 1] == s[i]);
    }
}

/// A record a well-formed object yields reports the point the ray
/// reaches at its parameter, and that point lies within the object's
/// padded bound; its parameter lies strictly inside the interval.
pub proof fn lemma_obj_yields_point(o: Object, r: Ray, ray_t: Interval, rec: HitRecord)
    requires
        obj_wf(o),
        obj_yields(o, r, ray_t, rec),
    ensures
        rec.p == crate::ray::ray_at_spec(r, rec.t as int),
        aabb_contains_point_padded(obj_bound(o), rec.p),
        ivl_surrounds(ray_t, rec.t as int),
        crate::material::mat_wf(rec.mat),
    decreases obj_height(o),
{
    match o {
        Object::Sphere(s) => crate::sphere::lemma_sphere_hit_props(s, r, ray_t),
        Object::Triangle(t) => crate::triangle::lemma_triangle_hit_props(t, r, ray_t),
        Object::List(l) => {
            let s = l.objects@;
            let i = choose|i: int|
                0 <= i < s.len() && obj_yields(#[trigger] s[i], r, ray_t, rec);
            lemma_seq_height_index(s, i);
            lemma_obj_yields_point(s[i], r, ray_t, rec);
            lemma_seq_bound_encloses(s, i);
        },
        Object::Mesh(m) => {
            lemma_tree_yields_point(m.bvh, r, ray_t, rec);
        },
        Object::Bvh(n) => {
            lemma_tree_yields_point(n, r, ray_t, rec);
        },
    }
}

/// The tree-level counterpart of `lemma_obj_yields_point`: anything a
/// well-formed subtree yields lies within the subtree's padded box.
#[verifier::rlimit(60)]
pub proof fn lemma_tree_yields_point(n: BVHTree, r: Ray, ray_t: Interval, rec: HitRecord)
    requires
        tree_wf(n),
        seq_yields(tree_objs(n), r, ray_t, rec),
    ensures
        rec.p == crate::ray::ray_at_spec(r, rec.t as int),
        aabb_contains_point_padded(n.aabb, rec.p),
        ivl_surrounds(ray_t, rec.t as int),
        crate::material::mat_wf(rec.mat),
    decreases tree_height(n),
{
    let own = n.objects.objects@;
    let lf = opt_tree_objs(n.left);
    let rf = opt_tree_objs(n.right);
    let s = tree_objs(n);
    assert(s == own + lf + rf);
    let i = choose|i: int| 0 <= i < s.len() && obj_yields(#[trigger] s[i], r, ray_t, rec);
    assert(s.len() == own.len() + lf.len() + rf.len());
    if i < own.len() {
        assert(s[i] == own[i]);
        lemma_seq_height_index(own, i);
        assert(seq_wf(own));
        assert(obj_wf(own[i]));
        lemma_obj_yields_point(own[i], r, ray_t, rec);
        lemma_seq_bound_encloses(own, i);
        assert(aabb_encloses(n.aabb, seq_bound(own)));
    } else if i < own.len() + lf.len() {
        let c = n.left->0;
        let j = i - own.len();
        assert(s[i] == lf[j]);
        assert(obj_yields(lf[j], r, ray_t, rec));
        assert(seq_yields(tree_objs(*c), r, ray_t, rec)) by {
            assert(lf == tree_objs(*c));
            assert(0 <= j < tree_objs(*c).len() && obj_yields(tree_objs(*c)[j], r, ray_t, rec));
        }
        lemma_tree_yields_point(*c, r, ray_t, rec);
        assert(aabb_encloses(n.aabb, c.aabb));
    } else {
        let c = n.right->0;
        let j = i - own.len() - lf.len();
        assert(s[i] == rf[j]);
        assert(obj_yields(rf[j], r, ray_t, rec));
        assert(seq_yields(tree_objs(*c), r, ray_t, rec)) by {
            assert(rf == tree_objs(*c));
            assert(0 <= j < tree_objs(*c).len() && obj_yields(tree_objs(*c)[j], r, ray_t, rec));
        }
        lemma_tree_yields_point(*c, r, ray_t, rec);
        assert(aabb_encloses(n.aabb, c.aabb));
    }
}

/// Pruning is sound: when the slab test rejects a well-formed subtree's
/// box, no object anywhere beneath that subtree is hit within any
/// nonnegative interval, so the traversal may skip it.
pub proof fn lemma_prune(n: BVHTree, r: Ray, ray_t: Interval)
    requires
        tree_wf(n),
        ray_wf(r),
        ray_t.min >= 0,
        !crate::aabb::aabb_hit_spec(n.aabb, r),
    ensures
        seq_min_t(tree_objs(n), r, ray_t) == None::<int>,
{
    let s = tree_objs(n);
    lemma_scan_min(s, r, ray_t);
    match seq_scan_spec(s, r, ray_t) {
        Some(rec) => {
            lemma_seq_props(s, r, ray_t);
            lemma_tree_yields_point(n, r, ray_t, rec);
            crate::aabb::lemma_slab_sound(n.aabb, r, rec.t as int);
            assert(false);
        },
        None => {},
    }
}

/// Objects drawn (as a multiset) from a well-formed pool are themselves
/// well formed.
pub proof fn lemma_sub_seq_wf(part: Seq<Object>, whole: Seq<Object>)
    requires
        forall|o: Object|
            part.to_multiset().count(o) <= #[trigger] whole.to_multiset().count(o),
        seq_wf(whole),
    ensures
        seq_wf(part),
{
    broadcast use vstd::seq_lib::group_to_multiset_ensures;

    assert forall|i: int| 0 <= i < part.len() implies obj_wf(#[trigger] part[i]) by {
        assert(part.contains(part[i]));
        assert(part.to_multiset().count(part[i]) > 0);
        assert(whole.to_multiset().count(part[i]) > 0);
        assert(whole.contains(part[i]));
        let j = choose|j: int| 0 <= j < whole.len() && whole[j] == part[i];
        assert(obj_wf(whole[j]));
    }
}

/// The union bound of objects drawn (as a multiset) from a pool stays
/// within the union bound of the pool.
pub proof fn lemma_sub_seq_bound(part: Seq<Object>, whole: Seq<Object>)
    requires
        forall|o: Object|
            part.to_multiset().count(o) <= #[trigger] whole.to_multiset().count(o),
        seq_wf(whole),
    ensures
        aabb_encloses(seq_bound(whole), seq_bound(part)),
    decreases part.len(),
{
    broadcast use vstd::seq_lib::group_to_multiset_ensures;
    broadcast use vstd::multiset::group_multiset_axioms;

    if part.len() == 0 {
        lemma_seq_bound_bounded(whole);
    } else {
        let rest = part.subrange(1, part.len() as int);
        assert(part.contains(part[0]));
        assert(whole.to_multiset().count(part[0]) > 0);
        assert(whole.contains(part[0]));
        let j = choose|j: int| 0 <= j < whole.len() && whole[j] == part[0];
        lemma_seq_bound_encloses(whole, j);
        assert(rest =~= part.remove(0));
        assert(rest.to_multiset() == part.to_multiset().remove(part[0]));
        assert forall|o: Object|
            rest.to_multiset().count(o) <= #[trigger] whole.to_multiset().count(o) by {
            assert(rest.to_multiset().count(o) <= part.to_multiset().count(o));
        }
        lemma_sub_seq_bound(rest, whole);
    }
}

/// The bound a well-formed object reports is measured.
pub proof fn lemma_obj_bound_bounded(o: Object)
    requires
        obj_wf(o),
    ensures
        aabb_bounded(obj_bound(o)),
    decreases obj_height(o),
{
    match o {
        Object::Sphere(s) => crate::sphere::lemma_sphere_bound_bounded(s),
        Object::Triangle(t) => crate::triangle::lemma_triangle_bound_bounded(t),
        Object::List(l) => lemma_seq_bound_bounded(l.objects@),
        Object::Mesh(_) => {},
        Object::Bvh(_) => {},
    }
}

/// The union bound of well-formed objects is measured.
pub proof fn lemma_seq_bound_bounded(s: Seq<Object>)
    requires
        seq_wf(s),
    ensures
        aabb_bounded(seq_bound(s)),
    decreases seq_height(s),
{
    if s.len() == 0 {
    } else {
        let rest = s.subrange(1, s.len() as int);
        lemma_seq_height_index(s, 0);
        lemma_obj_bound_bounded(s[0]);
        lemma_seq_bound_bounded(rest);
    }
}

/// The geometric invariant the explicit verification pass checks: every
/// node's box encloses the bound of each object it holds directly and the
/// boxes of both children, recursively.
pub open spec fn tree_geom_spec(n: BVHTree) -> bool
    decreases tree_height(n),
    via tree_geom_spec_dec
{
    &&& forall|i: int|
        0 <= i < n.objects.objects@.len() ==> aabb_encloses(
            n.aabb,
            obj_bound(#[trigger] n.objects.objects@[i]),
        )
    &&& match n.left {
        Some(c) => tree_geom_spec(*c) && aabb_encloses(n.aabb, c.aabb),
        None => true,
    }
    &&& match n.right {
        Some(c) => tree_geom_spec(*c) && aabb_encloses(n.aabb, c.aabb),
        None => true,
    }
}

#[via_fn]
proof fn tree_geom_spec_dec(n: BVHTree) {
}

/// The builder's invariant implies the geometric invariant the
/// verification pass confirms: within a well-formed tree, every node's
/// box encloses the bound of everything reachable beneath it.
pub proof fn lemma_tree_wf_geom(n: BVHTree)
    requires
        tree_wf(n),
    ensures
        tree_geom_spec(n),
    decreases tree_height(n),
{
    let own = n.objects.objects@;
    assert forall|i: int| 0 <= i < own.len() implies aabb_encloses(
        n.aabb,
        obj_bound(#[trigger] own[i]),
    ) by {
        lemma_seq_bound_encloses(own, i);
    }
    match n.left {
        Some(c) => lemma_tree_wf_geom(*c),
        None => {},
    }
    match n.right {
        Some(c) => lemma_tree_wf_geom(*c),
        None => {},
    }
}

/// The flattened objects of a node weigh strictly less than the node.
pub proof fn lemma_tree_flat_height(n: BVHTree)
    ensures
        seq_height(tree_objs(n)) < tree_height(n),
    decreases n,
{
    lemma_seq_height_concat(
        n.objects.objects@ + opt_tree_objs(n.left),
        opt_tree_objs(n.right),
    );
    lemma_seq_height_concat(n.objects.objects@, opt_tree_objs(n.left));
    match n.left {
        Some(t) => lemma_tree_flat_height(*t),
        None => {},
    }
    match n.right {
        Some(t) => lemma_tree_flat_height(*t),
        None => {},
    }
}

} // verus!
