//! A triangle mesh: a thin wrapper owning a bounding volume hierarchy of
//! triangles, to which it defers intersection and bounds.

use vstd::prelude::*;

verus! {

use crate::aabb::Aabb;
use crate::bvh::BVHTree;
use crate::hit::HitRecord;
use crate::hit::hit_t;
use crate::hit::ray_wf;
use crate::hit::seq_scan_spec;
use crate::hit::seq_yields;
use crate::hit::tree_objs;
use crate::hit::tree_wf;
use crate::interval::Interval;
use crate::interval::ivl_surrounds;
use crate::ray::Ray;

/// A mesh, delegating everything to its internal BVH of triangles.
#[derive(Debug)]
pub struct Mesh {
    /// The acceleration structure over the mesh's triangles.
    pub bvh: BVHTree,
}

impl Mesh {
    /// Build a mesh from a container of triangles (produced by an external
    /// loader) by constructing a BVH over them.
    pub fn from_hit_list(list: crate::hit_list::HittableList) -> (r: Mesh)
        requires
            crate::hit::seq_wf(list.objects@),
        ensures
            tree_wf(r.bvh),
            r.bvh.aabb == crate::hit::seq_bound(list.objects@),
            tree_objs(r.bvh).to_multiset() == list.objects@.to_multiset(),
    {
        Mesh { bvh: BVHTree::from_hit_list(list) }
    }

    /// Defers to the internal BVH.
    pub fn hit(&self, r: &Ray, ray_t: Interval) -> (res: Option<HitRecord>)
        requires
            tree_wf(self.bvh),
            ray_wf(*r),
            ray_t.min >= 0,
        ensures
            hit_t(res) == hit_t(seq_scan_spec(tree_objs(self.bvh), *r, ray_t)),
            match res {
                Some(rec) => seq_yields(tree_objs(self.bvh), *r, ray_t, rec) && ivl_surrounds(
                    ray_t,
                    rec.t as int,
                ),
                None => true,
            },
    {
        self.bvh.hit(r, ray_t)
    }

    /// The root bounding box of the internal BVH, which encapsulates the
    /// whole mesh.
    pub fn bound(&self) -> (r: Aabb)
        ensures
            r == self.bvh.aabb,
    {
        self.bvh.aabb
    }
}

} // verus!
