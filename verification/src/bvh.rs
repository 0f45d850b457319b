//! The bounding volume hierarchy: a binary tree of bounding boxes built
//! from a scene container with surface-area-heuristic splitting, whose
//! traversal is proved to return a hit at exactly the parameter the
//! brute-force linear scan of the same objects would return.

use vstd::prelude::*;

verus! {

use crate::aabb::Aabb;
use crate::aabb::SplitAxis;
use crate::aabb::aabb_encloses;
use crate::aabb::aabb_hit_spec;
use crate::aabb::aabb_overlaps;
use crate::aabb::aabb_union;
use crate::hit::Object;
use crate::fixed::FX_MAX;
use crate::fixed::FX_ONE;
use crate::fixed::fx_add;
use crate::fixed::fx_div;
use crate::fixed::fx_mul;
use crate::fixed::fx_sub;
use crate::hit::lemma_seq_bound_bounded;
use crate::hit::lemma_sub_seq_bound;
use crate::hit::lemma_sub_seq_wf;
use crate::hit::seq_bound;
use crate::hit::seq_wf;
use vstd::multiset::Multiset;
use vstd::seq_lib::lemma_multiset_commutative;
use crate::hit::HitRecord;
use crate::hit::hit_t;
use crate::hit::lemma_min_concat;
use crate::hit::lemma_prune;
use crate::hit::lemma_scan_min;
use crate::hit::lemma_seq_props;
use crate::hit::lemma_seq_restrict;
use crate::hit::lemma_seq_yields_lift;
use crate::hit::opt_min_t;
use crate::hit::opt_tree_height;
use crate::hit::opt_tree_objs;
use crate::hit::ray_wf;
use crate::hit::seq_min_t;
use crate::hit::seq_scan_spec;
use crate::hit::seq_yields;
use crate::hit::tree_height;
use crate::hit::tree_objs;
use crate::hit::tree_wf;
use crate::hit_list::HittableList;
use crate::interval::Interval;
use crate::interval::ivl_surrounds;
use crate::ray::Ray;

/// How many buckets the surface-area heuristic quantizes centroids into.
pub const NUM_BUCKETS: i64 = 12;

/// The interval of the box along the given axis.
pub open spec fn axis_interval_of(b: Aabb, axis: SplitAxis) -> Interval {
    match axis {
        SplitAxis::X => b.x,
        SplitAxis::Y => b.y,
        SplitAxis::Z => b.z,
    }
}

/// The centroid coordinate of a box along the given axis.
pub open spec fn centroid_on_axis(b: Aabb, axis: SplitAxis) -> int {
    crate::interval::ivl_mid_spec(axis_interval_of(b, axis))
}

/// The object belongs on the left of the split: its bound overlaps only
/// the left half of the parent box and its centroid lies below the split.
pub open spec fn goes_left(o: Object, axis: SplitAxis, pos: int, parent: Aabb) -> bool {
    let ob = crate::hit::obj_bound(o);
    let halves = crate::aabb::split_at_spec(parent, axis, pos);
    aabb_overlaps(halves.0, ob) && !aabb_overlaps(halves.1, ob) && centroid_on_axis(ob, axis)
        < pos
}

/// The mirrored condition: only the right half, centroid at or above the
/// split.
pub open spec fn goes_right(o: Object, axis: SplitAxis, pos: int, parent: Aabb) -> bool {
    let ob = crate::hit::obj_bound(o);
    let halves = crate::aabb::split_at_spec(parent, axis, pos);
    !aabb_overlaps(halves.0, ob) && aabb_overlaps(halves.1, ob) && centroid_on_axis(ob, axis)
        >= pos
}

/// The three lists are exactly the input filtered by the split
/// classification at coordinate `pos`, each in input order: left and
/// right as defined above, and everything else — an object that
/// straddles both halves, overlaps neither, or defeats the centroid
/// tie-break — in `both`.
pub open spec fn partitioned_at(
    l: Seq<Object>,
    r: Seq<Object>,
    b: Seq<Object>,
    input: Seq<Object>,
    axis: SplitAxis,
    pos: int,
    parent: Aabb,
) -> bool {
    &&& l == input.filter(|o: Object| goes_left(o, axis, pos, parent))
    &&& r == input.filter(|o: Object| goes_right(o, axis, pos, parent))
    &&& b == input.filter(
        |o: Object| !goes_left(o, axis, pos, parent) && !goes_right(o, axis, pos, parent),
    )
}

/// Within a parent that encloses it, a nonempty object classified left
/// lies entirely below the split coordinate along the split axis, and
/// one classified right entirely above it: the two sides are disjoint
/// along that axis.  (The traversal does not rely on this — its
/// correctness is proved by interval shrinking — but the heuristic's
/// quality does.)
pub proof fn lemma_split_separation(o: Object, axis: SplitAxis, pos: int, parent: Aabb)
    requires
        aabb_encloses(parent, crate::hit::obj_bound(o)),
        crate::hit::obj_bound(o).x.min <= crate::hit::obj_bound(o).x.max,
        crate::hit::obj_bound(o).y.min <= crate::hit::obj_bound(o).y.max,
        crate::hit::obj_bound(o).z.min <= crate::hit::obj_bound(o).z.max,
    ensures
        goes_left(o, axis, pos, parent) ==> axis_interval_of(
            crate::hit::obj_bound(o),
            axis,
        ).max < pos,
        goes_right(o, axis, pos, parent) ==> axis_interval_of(
            crate::hit::obj_bound(o),
            axis,
        ).min > pos,
{
}

/// The world-space coordinate of the `i`-th internal bucket boundary
/// along the axis interval: `min + size * (i + 1) / NUM_BUCKETS`.
pub open spec fn boundary_pos(ivl: Interval, i: int) -> int {
    crate::fixed::fx_add_spec(
        ivl.min as int,
        crate::fixed::fx_div_spec(
            crate::fixed::fx_mul_spec(
                crate::fixed::fx_sub_spec(ivl.max as int, ivl.min as int),
                (i + 1) * FX_ONE,
            ),
            NUM_BUCKETS * FX_ONE,
        ),
    )
}

/// The spec mirror of `bucket_index`: which of the twelve buckets a
/// centroid coordinate falls into, clamped at both ends.
pub open spec fn bucket_index_spec(cv: int, axis_min: int, axis_size: int) -> int {
    let rel = crate::fixed::fx_sub_spec(cv, axis_min);
    let t = crate::fixed::fx_div_spec(rel, axis_size);
    let scaled = crate::fixed::fx_mul_spec(t, 12 * FX_ONE);
    if scaled <= 0 {
        0
    } else {
        let u = crate::fixed::flr(scaled, FX_ONE as int);
        if u >= 11 {
            11
        } else {
            u
        }
    }
}

/// The bucket an object's centroid falls into.
pub open spec fn obj_bucket(o: Object, amin: int, asize: int, axis: SplitAxis) -> int {
    bucket_index_spec(centroid_on_axis(crate::hit::obj_bound(o), axis), amin, asize)
}

/// How many objects land in bucket `b` (saturating far beyond any real
/// scene, exactly as the accumulator does).
pub open spec fn bucket_count_spec(
    s: Seq<Object>,
    b: int,
    amin: int,
    asize: int,
    axis: SplitAxis,
) -> int
    decreases s.len(),
{
    if s.len() == 0 {
        0
    } else {
        let prev = bucket_count_spec(s.drop_last(), b, amin, asize, axis);
        if obj_bucket(s.last(), amin, asize, axis) == b {
            if prev < 0x7fff_ffff_ffff {
                prev + 1
            } else {
                prev
            }
        } else {
            prev
        }
    }
}

/// The union of the bounds of the objects landing in bucket `b`.
pub open spec fn bucket_box_spec(
    s: Seq<Object>,
    b: int,
    amin: int,
    asize: int,
    axis: SplitAxis,
) -> Aabb
    decreases s.len(),
{
    if s.len() == 0 {
        crate::aabb::aabb_empty()
    } else {
        let prev = bucket_box_spec(s.drop_last(), b, amin, asize, axis);
        if obj_bucket(s.last(), amin, asize, axis) == b {
            aabb_union(prev, crate::hit::obj_bound(s.last()))
        } else {
            prev
        }
    }
}

/// The summed object count of the buckets in `lo .. hi`.
pub open spec fn sum_counts(
    s: Seq<Object>,
    lo: int,
    hi: int,
    amin: int,
    asize: int,
    axis: SplitAxis,
) -> int
    decreases hi - lo,
{
    if hi <= lo {
        0
    } else {
        sum_counts(s, lo, hi - 1, amin, asize, axis) + bucket_count_spec(
            s,
            hi - 1,
            amin,
            asize,
            axis,
        )
    }
}

/// The union of the boxes of the buckets in `lo .. hi`.
pub open spec fn union_boxes(
    s: Seq<Object>,
    lo: int,
    hi: int,
    amin: int,
    asize: int,
    axis: SplitAxis,
) -> Aabb
    decreases hi - lo,
{
    if hi <= lo {
        crate::aabb::aabb_empty()
    } else {
        aabb_union(
            union_boxes(s, lo, hi - 1, amin, asize, axis),
            bucket_box_spec(s, hi - 1, amin, asize, axis),
        )
    }
}

/// An object count as a saturating fixed-point value.
pub open spec fn sat_count_spec(c: int) -> int {
    if c > 0x7fff_ffff_ffff {
        (0x7fff_ffff_ffff as int) * 65536
    } else {
        c * 65536
    }
}

/// The estimated cost of splitting after bucket `i`:
/// `area(left union) * left count + area(right union) * right count`.
pub open spec fn cost_spec(s: Seq<Object>, i: int, amin: int, asize: int, axis: SplitAxis) -> int {
    crate::fixed::fx_add_spec(
        crate::fixed::fx_mul_spec(
            crate::aabb::aabb_area_spec(union_boxes(s, 0, i + 1, amin, asize, axis)),
            sat_count_spec(sum_counts(s, 0, i + 1, amin, asize, axis)),
        ),
        crate::fixed::fx_mul_spec(
            crate::aabb::aabb_area_spec(
                union_boxes(s, i + 1, NUM_BUCKETS as int, amin, asize, axis),
            ),
            sat_count_spec(sum_counts(s, i + 1, NUM_BUCKETS as int, amin, asize, axis)),
        ),
    )
}

/// The first cost-minimizing boundary among `0 ..= up_to`, with its cost:
/// a later boundary displaces an earlier one only with a strictly
/// smaller cost.
pub open spec fn best_boundary(
    s: Seq<Object>,
    up_to: int,
    amin: int,
    asize: int,
    axis: SplitAxis,
) -> (int, int)
    decreases up_to,
{
    if up_to <= 0 {
        (0, cost_spec(s, 0, amin, asize, axis))
    } else {
        let prev = best_boundary(s, up_to - 1, amin, asize, axis);
        let c = cost_spec(s, up_to, amin, asize, axis);
        if c < prev.1 {
            (up_to, c)
        } else {
            prev
        }
    }
}

/// The boundary the surface-area heuristic chooses for a container under
/// a parent box: the first minimizer over the eleven internal boundaries
/// of the chosen axis.
pub open spec fn chosen_boundary(s: Seq<Object>, parent: Aabb, axis: SplitAxis) -> int {
    let ivl = axis_interval_of(parent, axis);
    best_boundary(
        s,
        NUM_BUCKETS as int - 2,
        ivl.min as int,
        crate::fixed::fx_sub_spec(ivl.max as int, ivl.min as int),
        axis,
    ).0
}

/// A node of the bounding volume hierarchy.  `aabb` bounds every object
/// held in this node's own list and in both subtrees; objects that
/// straddle the split plane stay in `objects` and are tested exhaustively.
#[derive(Debug)]
pub struct BVHTree {
    /// The left subtree.
    pub left: Option<Box<BVHTree>>,
    /// The right subtree.
    pub right: Option<Box<BVHTree>>,
    /// Bounds all the objects in this node and its children.
    pub aabb: Aabb,
    /// The objects held directly by this node.
    pub objects: HittableList,
}

impl BVHTree {
    /// Returns the node's stored bounding box.
    pub fn bound(&self) -> (r: Aabb)
        ensures
            r == self.aabb,
    {
        self.aabb
    }

    /// Recursively intersect the ray against this node: test both
    /// children's boxes first, skip a subtree whose box the ray misses
    /// (pruning, proved sound), explore the nearer child first, consult
    /// the second child over the interval shrunk to the best hit so far,
    /// and combine with the node's own straddling objects — the result is
    /// at exactly the parameter the linear scan over every object
    /// reachable from this node would return.
    #[verifier::spinoff_prover]
    #[verifier::rlimit(100)]
    pub fn hit(&self, r: &Ray, ray_t: Interval) -> (res: Option<HitRecord>)
        requires
            tree_wf(*self),
            ray_wf(*r),
            ray_t.min >= 0,
        ensures
            hit_t(res) == hit_t(seq_scan_spec(tree_objs(*self), *r, ray_t)),
            match res {
                Some(rec) => seq_yields(tree_objs(*self), *r, ray_t, rec) && ivl_surrounds(
                    ray_t,
                    rec.t as int,
                ),
                None => true,
            },
        decreases tree_height(*self),
    {
        let ghost own = self.objects.objects@;
        let ghost lf = opt_tree_objs(self.left);
        let ghost rf = opt_tree_objs(self.right);
        let left_t = match &self.left {
            Some(node) => node.aabb.ray_hit(r),
            None => None,
        };
        let right_t = match &self.right {
            Some(node) => node.aabb.ray_hit(r),
            None => None,
        };
        let best0 = self.objects.hit(r, ray_t);
        let first_left = match (&left_t, &right_t) {
            (Some(lt), Some(rt)) => lt < rt,
            (Some(_), None) => true,
            _ => false,
        };
        let (best1, best2);
        if first_left {
            best1 = Self::hit_sub(&self.left, &left_t, r, ray_t, best0);
            best2 = Self::hit_sub(&self.right, &right_t, r, ray_t, best1);
        } else {
            best1 = Self::hit_sub(&self.right, &right_t, r, ray_t, best0);
            best2 = Self::hit_sub(&self.left, &left_t, r, ray_t, best1);
        }
        proof {
            let ghost m_own = seq_min_t(own, *r, ray_t);
            let ghost m_l = seq_min_t(lf, *r, ray_t);
            let ghost m_r = seq_min_t(rf, *r, ray_t);
            lemma_scan_min(own, *r, ray_t);
            assert(hit_t(best2) == opt_min_t(m_own, opt_min_t(m_l, m_r)));
            lemma_min_concat(own + lf, rf, *r, ray_t);
            lemma_min_concat(own, lf, *r, ray_t);
            assert(tree_objs(*self) == own + lf + rf);
            lemma_scan_min(tree_objs(*self), *r, ray_t);
            match best2 {
                Some(rec) => {
                    if best1 == Some(rec) {
                        if best0 == Some(rec) {
                            let j = choose|j: int|
                                0 <= j < own.len() && crate::hit::obj_yields(
                                    #[trigger] own[j],
                                    *r,
                                    ray_t,
                                    rec,
                                );
                            assert((own + lf + rf)[j] == own[j]);
                            assert(seq_yields(tree_objs(*self), *r, ray_t, rec));
                        } else {
                            let part = if first_left {
                                lf
                            } else {
                                rf
                            };
                            let j = choose|j: int|
                                0 <= j < part.len() && crate::hit::obj_yields(
                                    #[trigger] part[j],
                                    *r,
                                    ray_t,
                                    rec,
                                );
                            if first_left {
                                assert((own + lf + rf)[own.len() + j] == lf[j]);
                            } else {
                                assert((own + lf + rf)[own.len() + lf.len() + j] == rf[j]);
                            }
                            assert(seq_yields(tree_objs(*self), *r, ray_t, rec));
                        }
                    } else {
                        let part = if first_left {
                            rf
                        } else {
                            lf
                        };
                        let j = choose|j: int|
                            0 <= j < part.len() && crate::hit::obj_yields(
                                #[trigger] part[j],
                                *r,
                                ray_t,
                                rec,
                            );
                        if first_left {
                            assert((own + lf + rf)[own.len() + lf.len() + j] == rf[j]);
                        } else {
                            assert((own + lf + rf)[own.len() + j] == lf[j]);
                        }
                        assert(seq_yields(tree_objs(*self), *r, ray_t, rec));
                    }
                },
                None => {},
            }
        }
        best2
    }

    /// Create a BVH from a scene container, partitioning recursively with
    /// surface-area-heuristic splitting.  The resulting tree is well
    /// formed — every node's box encloses everything beneath it — holds
    /// exactly the objects of the input (as a multiset), and its root box
    /// is the union of the input's bounds.
    pub fn from_hit_list(hit_list: HittableList) -> (res: BVHTree)
        requires
            seq_wf(hit_list.objects@),
        ensures
            tree_wf(res),
            res.aabb == seq_bound(hit_list.objects@),
            tree_objs(res).to_multiset() == hit_list.objects@.to_multiset(),
            match res.left {
                Some(c) => tree_objs(*c).len() > 0,
                None => true,
            },
            match res.right {
                Some(c) => tree_objs(*c).len() > 0,
                None => true,
            },
            res.left is None && res.right is None ==> res.objects.objects@.to_multiset()
                == hit_list.objects@.to_multiset(),
        decreases hit_list.objects.len(),
    {
        broadcast use vstd::seq_lib::group_to_multiset_ensures;
        broadcast use vstd::multiset::group_multiset_axioms;

        let ghost input = hit_list.objects@;
        let n = hit_list.objects.len();
        let aabb = hit_list.bound();
        let split_axis = SplitAxis::choose_from_aabb(aabb);
        let (sl, sr, sb) = Self::sah_split(hit_list, &aabb, split_axis);
        let mut left = sl;
        let mut right = sr;
        let mut both = sb;
        proof {
            assert(Seq::<crate::hit::Object>::empty().to_multiset() =~= Multiset::<
                crate::hit::Object,
            >::empty());
        }
        // A side that gathered the whole parent would recurse forever:
        // such a list lands in the node's own bucket instead.
        if left.objects.len() == n {
            let ghost b_before = both.objects@;
            let ghost l_before = left.objects@;
            both.combine(left);
            left = HittableList::new();
            proof {
                lemma_multiset_commutative(b_before, l_before);
                assert(left.objects@.to_multiset().add(right.objects@.to_multiset()).add(
                    both.objects@.to_multiset(),
                ) =~= input.to_multiset());
            }
        }
        if right.objects.len() == n {
            let ghost b_before = both.objects@;
            let ghost r_before = right.objects@;
            both.combine(right);
            right = HittableList::new();
            proof {
                lemma_multiset_commutative(b_before, r_before);
                assert(left.objects@.to_multiset().add(right.objects@.to_multiset()).add(
                    both.objects@.to_multiset(),
                ) =~= input.to_multiset());
            }
        }
        proof {
            assert(left.objects@.to_multiset().add(right.objects@.to_multiset()).add(
                both.objects@.to_multiset(),
            ) =~= input.to_multiset());
            assert(left.objects@.to_multiset().len() == left.objects@.len());
            assert(right.objects@.to_multiset().len() == right.objects@.len());
            assert(both.objects@.to_multiset().len() == both.objects@.len());
            assert(input.to_multiset().len() == input.len());
            assert(left.objects@.to_multiset().add(right.objects@.to_multiset()).add(
                both.objects@.to_multiset(),
            ).len() == left.objects@.to_multiset().len() + right.objects@.to_multiset().len()
                + both.objects@.to_multiset().len());
            assert(left.objects@.len() + right.objects@.len() + both.objects@.len()
                == input.len());
            lemma_sub_counts(left.objects@, right.objects@, both.objects@, input);
            lemma_sub_seq_wf(left.objects@, input);
            lemma_sub_seq_wf(right.objects@, input);
            lemma_sub_seq_wf(both.objects@, input);
            lemma_sub_seq_bound(left.objects@, input);
            lemma_sub_seq_bound(right.objects@, input);
            lemma_sub_seq_bound(both.objects@, input);
            lemma_seq_bound_bounded(input);
        }
        let ghost left_view = left.objects@;
        let ghost right_view = right.objects@;
        let ghost both_view = both.objects@;
        let left_child = if left.objects.len() > 0 {
            Some(Box::new(Self::from_hit_list(left)))
        } else {
            None
        };
        let right_child = if right.objects.len() > 0 {
            Some(Box::new(Self::from_hit_list(right)))
        } else {
            None
        };
        let res = BVHTree { left: left_child, right: right_child, aabb, objects: both };
        proof {
            assert(opt_tree_objs(res.left).to_multiset() =~= left_view.to_multiset());
            assert(opt_tree_objs(res.right).to_multiset() =~= right_view.to_multiset());
            match &res.left {
                Some(c) => {
                    assert(tree_objs(**c).to_multiset().len() == left_view.to_multiset().len());
                    assert(left_view.to_multiset().len() == left_view.len());
                    assert(tree_objs(**c).to_multiset().len() == tree_objs(**c).len());
                },
                None => {},
            }
            match &res.right {
                Some(c) => {
                    assert(tree_objs(**c).to_multiset().len() == right_view.to_multiset().len());
                    assert(right_view.to_multiset().len() == right_view.len());
                    assert(tree_objs(**c).to_multiset().len() == tree_objs(**c).len());
                },
                None => {},
            }
            if res.left is None && res.right is None {
                assert(left_view.to_multiset() =~= Multiset::<Object>::empty());
                assert(right_view.to_multiset() =~= Multiset::<Object>::empty());
                assert(both_view.to_multiset() =~= input.to_multiset());
            }
            lemma_multiset_commutative(both_view + opt_tree_objs(res.left), opt_tree_objs(res.right));
            lemma_multiset_commutative(both_view, opt_tree_objs(res.left));
            assert(tree_objs(res) == both_view + opt_tree_objs(res.left) + opt_tree_objs(
                res.right,
            ));
            assert(tree_objs(res).to_multiset() =~= input.to_multiset());
        }
        res
    }

    /// Split a scene container into `(left, right, both)` around the
    /// surface-area-heuristic boundary with the cheapest estimated cost:
    /// object centroids are quantized into twelve buckets along the split
    /// axis, each internal boundary is costed as `area * count` on both
    /// sides, and the cheapest boundary becomes the split coordinate.
    fn sah_split(hit_list: HittableList, aabb: &Aabb, split_axis: SplitAxis) -> (res: (
        HittableList,
        HittableList,
        HittableList,
    ))
        ensures
            res.0.objects@.to_multiset().add(res.1.objects@.to_multiset()).add(
                res.2.objects@.to_multiset(),
            ) == hit_list.objects@.to_multiset(),
            partitioned_at(
                res.0.objects@,
                res.1.objects@,
                res.2.objects@,
                hit_list.objects@,
                split_axis,
                boundary_pos(
                    axis_interval_of(*aabb, split_axis),
                    chosen_boundary(hit_list.objects@, *aabb, split_axis),
                ),
                *aabb,
            ),
            0 <= chosen_boundary(hit_list.objects@, *aabb, split_axis) <= NUM_BUCKETS - 2,
    {
        let ghost old_view = hit_list.objects@;
        let axis_interval = match split_axis {
            SplitAxis::X => aabb.x,
            SplitAxis::Y => aabb.y,
            SplitAxis::Z => aabb.z,
        };
        let axis_size = axis_interval.size();
        let n = hit_list.objects.len();
        let ghost amin = axis_interval.min as int;
        let ghost asz = axis_size as int;
        let mut bucket_counts: Vec<i64> = Vec::new();
        let mut bucket_bounds: Vec<Aabb> = Vec::new();
        let mut b: i64 = 0;
        while b < NUM_BUCKETS
            invariant
                0 <= b <= NUM_BUCKETS,
                bucket_counts@.len() == b,
                bucket_bounds@.len() == b,
                n == hit_list.objects.len(),
                old_view == hit_list.objects@,
                amin == axis_interval.min as int,
                asz == axis_size as int,
                forall|k: int| 0 <= k < b ==> 0 <= #[trigger] bucket_counts@[k] <= 0x7fff_ffff_ffff,
                forall|k: int|
                    0 <= k < b ==> #[trigger] bucket_counts@[k] as int == bucket_count_spec(
                        old_view,
                        k,
                        amin,
                        asz,
                        split_axis,
                    ),
                forall|k: int|
                    0 <= k < b ==> #[trigger] bucket_bounds@[k] == bucket_box_spec(
                        old_view,
                        k,
                        amin,
                        asz,
                        split_axis,
                    ),
            decreases NUM_BUCKETS - b,
        {
            let mut cnt: i64 = 0;
            let mut bb = Aabb::new();
            let mut i: usize = 0;
            proof {
                assert(old_view.take(0) =~= Seq::<Object>::empty());
            }
            while i < n
                invariant
                    0 <= i <= n,
                    n == hit_list.objects.len(),
                    old_view == hit_list.objects@,
                    amin == axis_interval.min as int,
                    asz == axis_size as int,
                    0 <= cnt <= 0x7fff_ffff_ffff,
                    cnt as int == bucket_count_spec(
                        old_view.take(i as int),
                        b as int,
                        amin,
                        asz,
                        split_axis,
                    ),
                    bb == bucket_box_spec(old_view.take(i as int), b as int, amin, asz, split_axis),
                decreases n - i,
            {
                let object_aabb = hit_list.objects[i].bound();
                let centroid = object_aabb.centroid();
                let centroid_value = match split_axis {
                    SplitAxis::X => centroid.x,
                    SplitAxis::Y => centroid.y,
                    SplitAxis::Z => centroid.z,
                };
                let idx = bucket_index(centroid_value, axis_interval.min, axis_size);
                proof {
                    assert(old_view.take(i as int + 1).drop_last() =~= old_view.take(i as int));
                    assert(old_view.take(i as int + 1).last() == old_view[i as int]);
                    assert(idx as int == obj_bucket(old_view[i as int], amin, asz, split_axis));
                }
                if idx == b {
                    if cnt < 0x7fff_ffff_ffff {
                        cnt = cnt + 1;
                    }
                    bb.union(&object_aabb);
                }
                i = i + 1;
            }
            proof {
                assert(old_view.take(n as int) =~= old_view);
            }
            bucket_counts.push(cnt);
            bucket_bounds.push(bb);
            b = b + 1;
        }
        // cost each of the eleven internal boundaries, keeping the first
        // minimum
        let mut best_idx: i64 = 0;
        let mut best_cost: i64 = FX_MAX;
        let mut i: i64 = 0;
        while i < NUM_BUCKETS - 1
            invariant
                0 <= i <= NUM_BUCKETS - 1,
                0 <= best_idx <= NUM_BUCKETS - 2,
                bucket_counts@.len() == NUM_BUCKETS,
                bucket_bounds@.len() == NUM_BUCKETS,
                amin == axis_interval.min as int,
                asz == axis_size as int,
                forall|k: int| 0 <= k < NUM_BUCKETS ==> 0 <= #[trigger] bucket_counts@[k] <= 0x7fff_ffff_ffff,
                forall|k: int|
                    0 <= k < NUM_BUCKETS ==> #[trigger] bucket_counts@[k] as int
                        == bucket_count_spec(old_view, k, amin, asz, split_axis),
                forall|k: int|
                    0 <= k < NUM_BUCKETS ==> #[trigger] bucket_bounds@[k] == bucket_box_spec(
                        old_view,
                        k,
                        amin,
                        asz,
                        split_axis,
                    ),
                i == 0 ==> best_idx == 0 && best_cost == FX_MAX,
                i >= 1 ==> best_idx as int == best_boundary(
                    old_view,
                    i - 1,
                    amin,
                    asz,
                    split_axis,
                ).0 && best_cost as int == best_boundary(
                    old_view,
                    i - 1,
                    amin,
                    asz,
                    split_axis,
                ).1,
            decreases NUM_BUCKETS - 1 - i,
        {
            let mut left_box = Aabb::new();
            let mut right_box = Aabb::new();
            let mut left_count: i64 = 0;
            let mut right_count: i64 = 0;
            let mut k: i64 = 0;
            while k < NUM_BUCKETS
                invariant
                    0 <= k <= NUM_BUCKETS,
                    0 <= i <= NUM_BUCKETS - 1,
                    bucket_counts@.len() == NUM_BUCKETS,
                    bucket_bounds@.len() == NUM_BUCKETS,
                    amin == axis_interval.min as int,
                    asz == axis_size as int,
                    forall|j: int| 0 <= j < NUM_BUCKETS ==> 0 <= #[trigger] bucket_counts@[j] <= 0x7fff_ffff_ffff,
                    forall|j: int|
                        0 <= j < NUM_BUCKETS ==> #[trigger] bucket_counts@[j] as int
                            == bucket_count_spec(old_view, j, amin, asz, split_axis),
                    forall|j: int|
                        0 <= j < NUM_BUCKETS ==> #[trigger] bucket_bounds@[j] == bucket_box_spec(
                            old_view,
                            j,
                            amin,
                            asz,
                            split_axis,
                        ),
                    0 <= left_count <= k * 0x7fff_ffff_ffff,
                    0 <= right_count <= k * 0x7fff_ffff_ffff,
                    left_box == union_boxes(
                        old_view,
                        0,
                        if k <= i + 1 {
                            k as int
                        } else {
                            i + 1
                        },
                        amin,
                        asz,
                        split_axis,
                    ),
                    right_box == union_boxes(
                        old_view,
                        i + 1,
                        if k <= i + 1 {
                            i + 1
                        } else {
                            k as int
                        },
                        amin,
                        asz,
                        split_axis,
                    ),
                    left_count as int == sum_counts(
                        old_view,
                        0,
                        if k <= i + 1 {
                            k as int
                        } else {
                            i + 1
                        },
                        amin,
                        asz,
                        split_axis,
                    ),
                    right_count as int == sum_counts(
                        old_view,
                        i + 1,
                        if k <= i + 1 {
                            i + 1
                        } else {
                            k as int
                        },
                        amin,
                        asz,
                        split_axis,
                    ),
                decreases NUM_BUCKETS - k,
            {
                proof {
                    assert((k + 1) * 0x7fff_ffff_ffff == k * 0x7fff_ffff_ffff + 0x7fff_ffff_ffff)
                        by (nonlinear_arith);
                    assert(k * 0x7fff_ffff_ffff <= 12 * 0x7fff_ffff_ffff) by (nonlinear_arith)
                        requires
                            0 <= k <= 12,
                    ;
                }
                if k <= i {
                    left_box.union(&bucket_bounds[k as usize]);
                    left_count = left_count + bucket_counts[k as usize];
                } else {
                    right_box.union(&bucket_bounds[k as usize]);
                    right_count = right_count + bucket_counts[k as usize];
                }
                k = k + 1;
            }
            let left_fx = saturate_count(left_count);
            let right_fx = saturate_count(right_count);
            let cost = fx_add(
                fx_mul(left_box.surface_area(), left_fx),
                fx_mul(right_box.surface_area(), right_fx),
            );
            proof {
                assert(cost as int == cost_spec(old_view, i as int, amin, asz, split_axis));
                assert(cost <= FX_MAX);
            }
            if cost < best_cost {
                best_cost = cost;
                best_idx = i;
            }
            proof {
                if i == 0 {
                    assert(best_idx as int == best_boundary(
                        old_view,
                        0,
                        amin,
                        asz,
                        split_axis,
                    ).0 && best_cost as int == best_boundary(
                        old_view,
                        0,
                        amin,
                        asz,
                        split_axis,
                    ).1);
                }
            }
            i = i + 1;
        }
        let split_pos = fx_add(
            axis_interval.min,
            fx_div(fx_mul(axis_size, (best_idx + 1) * FX_ONE), NUM_BUCKETS * FX_ONE),
        );
        proof {
            assert(axis_interval == axis_interval_of(*aabb, split_axis));
            assert(best_idx as int == chosen_boundary(old_view, *aabb, split_axis));
            assert(split_pos as int == boundary_pos(
                axis_interval_of(*aabb, split_axis),
                chosen_boundary(old_view, *aabb, split_axis),
            ));
        }
        let res = Self::partition_objects(hit_list, split_axis, split_pos, aabb);
        res
    }

    /// Partition a scene container into `(left, right, both)` by testing
    /// each object's bound for overlap against the two halves of the
    /// parent box split at `split_pos`: overlaps-left-only (with the
    /// centroid below the split) goes left, overlaps-right-only (centroid
    /// at or above) goes right, and an object that straddles the split or
    /// defeats the centroid tie-break stays in `both`.  Each list keeps
    /// its objects in input order.
    fn partition_objects(
        hit_list: HittableList,
        split_axis: SplitAxis,
        split_pos: i64,
        parent_aabb: &Aabb,
    ) -> (res: (HittableList, HittableList, HittableList))
        ensures
            partitioned_at(
                res.0.objects@,
                res.1.objects@,
                res.2.objects@,
                hit_list.objects@,
                split_axis,
                split_pos as int,
                *parent_aabb,
            ),
            res.0.objects@.to_multiset().add(res.1.objects@.to_multiset()).add(
                res.2.objects@.to_multiset(),
            ) == hit_list.objects@.to_multiset(),
    {
        broadcast use vstd::seq_lib::group_to_multiset_ensures;
        broadcast use vstd::multiset::group_multiset_axioms;

        let ghost input = hit_list.objects@;
        let ghost n = input.len();
        let mut left = HittableList::new();
        let mut right = HittableList::new();
        let mut both = HittableList::new();
        let (left_aabb, right_aabb) = parent_aabb.split_at(split_axis, split_pos);
        // reverse the input onto a stack, so popping below walks the
        // objects in their original order
        let mut v = hit_list.objects;
        let mut stack: Vec<Object> = Vec::new();
        proof {
            assert(input.take(v@.len() as int) =~= v@);
        }
        while v.len() > 0
            invariant
                v@ == input.take(v@.len() as int),
                v@.len() + stack@.len() == n,
                n == input.len(),
                forall|i: int| 0 <= i < stack@.len() ==> stack@[i] == input[n - 1 - i],
                v@.to_multiset().add(stack@.to_multiset()) =~= input.to_multiset(),
            decreases v.len(),
        {
            let ghost l = v@.len() as int;
            let ghost v_before = v@;
            let ghost stack_before = stack@;
            let o = v.pop().unwrap();
            proof {
                assert(input.take(l)[l - 1] == input[l - 1]);
                assert(input.take(l).subrange(0, l - 1) =~= input.take(l - 1));
                assert(v_before =~= v@.push(o));
                vstd::seq_lib::to_multiset_build(v@, o);
                vstd::seq_lib::to_multiset_build(stack_before, o);
            }
            stack.push(o);
        }
        let ghost lp = |o: Object| goes_left(o, split_axis, split_pos as int, *parent_aabb);
        let ghost rp = |o: Object| goes_right(o, split_axis, split_pos as int, *parent_aabb);
        let ghost bp = |o: Object|
            !goes_left(o, split_axis, split_pos as int, *parent_aabb) && !goes_right(
                o,
                split_axis,
                split_pos as int,
                *parent_aabb,
            );
        proof {
            reveal(Seq::filter);
            assert(input.take(0) =~= Seq::<Object>::empty());
            assert(Seq::<Object>::empty().to_multiset() =~= Multiset::<Object>::empty());
            assert(stack@.to_multiset().add(left.objects@.to_multiset()).add(
                right.objects@.to_multiset(),
            ).add(both.objects@.to_multiset()) =~= input.to_multiset());
        }
        while stack.len() > 0
            invariant
                stack@.len() <= n,
                n == input.len(),
                forall|i: int| 0 <= i < stack@.len() ==> stack@[i] == input[n - 1 - i],
                lp == (|o: Object| goes_left(o, split_axis, split_pos as int, *parent_aabb)),
                rp == (|o: Object| goes_right(o, split_axis, split_pos as int, *parent_aabb)),
                bp == (|o: Object|
                    !goes_left(o, split_axis, split_pos as int, *parent_aabb) && !goes_right(
                        o,
                        split_axis,
                        split_pos as int,
                        *parent_aabb,
                    )),
                left_aabb == crate::aabb::split_at_spec(
                    *parent_aabb,
                    split_axis,
                    split_pos as int,
                ).0,
                right_aabb == crate::aabb::split_at_spec(
                    *parent_aabb,
                    split_axis,
                    split_pos as int,
                ).1,
                left.objects@ == input.take(n - stack@.len() as int).filter(lp),
                right.objects@ == input.take(n - stack@.len() as int).filter(rp),
                both.objects@ == input.take(n - stack@.len() as int).filter(bp),
                stack@.to_multiset().add(left.objects@.to_multiset()).add(
                    right.objects@.to_multiset(),
                ).add(both.objects@.to_multiset()) =~= input.to_multiset(),
            decreases stack.len(),
        {
            let ghost k = n - stack@.len() as int;
            let ghost stack_before = stack@;
            let o = stack.pop().unwrap();
            proof {
                assert(o == input[k]);
                assert(stack_before =~= stack@.push(o));
                vstd::seq_lib::to_multiset_build(stack@, o);
            }
            let ghost l_before = left.objects@;
            let ghost r_before = right.objects@;
            let ghost b_before = both.objects@;
            let object_aabb = o.bound();
            let centroid = object_aabb.centroid();
            let centroid_value = match split_axis {
                SplitAxis::X => centroid.x,
                SplitAxis::Y => centroid.y,
                SplitAxis::Z => centroid.z,
            };
            let ol = left_aabb.overlaps(&object_aabb);
            let orr = right_aabb.overlaps(&object_aabb);
            proof {
                assert(centroid_value as int == centroid_on_axis(
                    crate::hit::obj_bound(o),
                    split_axis,
                ));
            }
            if ol && !orr && centroid_value < split_pos {
                left.add(o);
            } else if !ol && orr && centroid_value >= split_pos {
                right.add(o);
            } else {
                both.add(o);
            }
            proof {
                reveal(Seq::filter);
                vstd::seq_lib::to_multiset_build(l_before, o);
                vstd::seq_lib::to_multiset_build(r_before, o);
                vstd::seq_lib::to_multiset_build(b_before, o);
                assert(input.take(k + 1).drop_last() =~= input.take(k));
                assert(input.take(k + 1).last() == input[k]);
                assert(left.objects@ == input.take(k + 1).filter(lp));
                assert(right.objects@ == input.take(k + 1).filter(rp));
                assert(both.objects@ == input.take(k + 1).filter(bp));
                assert(stack@.to_multiset().add(left.objects@.to_multiset()).add(
                    right.objects@.to_multiset(),
                ).add(both.objects@.to_multiset()) =~= input.to_multiset());
            }
        }
        proof {
            assert(input.take(n as int) =~= input);
            assert(stack@.to_multiset() =~= Multiset::<Object>::empty());
            assert(left.objects@.to_multiset().add(right.objects@.to_multiset()).add(
                both.objects@.to_multiset(),
            ) =~= input.to_multiset());
        }
        (left, right, both)
    }

    /// Check, recursively, the builder's full invariant: well-formed
    /// objects, a measured box, and enclosure of everything beneath.
    pub fn check_wf(&self) -> (r: bool)
        ensures
            r == tree_wf(*self),
        decreases tree_height(*self),
    {
        if !crate::hit::check_seq_wf(&self.objects.objects) {
            return false;
        }
        if !self.aabb.is_bounded() {
            return false;
        }
        let own_bound = self.objects.bound();
        if !self.aabb.encloses(&own_bound) {
            return false;
        }
        match &self.left {
            Some(c) => {
                if !self.aabb.encloses(&c.aabb) {
                    return false;
                }
                if !c.check_wf() {
                    return false;
                }
            },
            None => {},
        }
        match &self.right {
            Some(c) => {
                if !self.aabb.encloses(&c.aabb) {
                    return false;
                }
                if !c.check_wf() {
                    return false;
                }
            },
            None => {},
        }
        true
    }

    /// An explicit verification pass over the whole tree, confirming that
    /// every node's box encloses the bound of every object it holds and
    /// the boxes of both subtrees.  Never run on the hot intersection
    /// path; a `false` here would mean a defective builder.
    pub fn verify(&self) -> (r: bool)
        ensures
            r == crate::hit::tree_geom_spec(*self),
        decreases tree_height(*self),
    {
        let n = self.objects.objects.len();
        let mut i: usize = 0;
        while i < n
            invariant
                0 <= i <= n,
                n == self.objects.objects@.len(),
                forall|j: int|
                    0 <= j < i ==> aabb_encloses(
                        self.aabb,
                        crate::hit::obj_bound(#[trigger] self.objects.objects@[j]),
                    ),
            decreases n - i,
        {
            let b = self.objects.objects[i].bound();
            if !self.aabb.encloses(&b) {
                return false;
            }
            i = i + 1;
        }
        match &self.left {
            Some(c) => {
                if !self.aabb.encloses(&c.aabb) {
                    return false;
                }
                if !c.verify() {
                    return false;
                }
            },
            None => {},
        }
        match &self.right {
            Some(c) => {
                if !self.aabb.encloses(&c.aabb) {
                    return false;
                }
                if !c.verify() {
                    return false;
                }
            },
            None => {},
        }
        true
    }

    /// Consult one optional subtree: skip it when the slab test rejects
    /// its box (sound by `lemma_prune`), otherwise query it over the
    /// interval shrunk to the best hit so far and keep the closer result.
    fn hit_sub(
        child: &Option<Box<BVHTree>>,
        box_t: &Option<i64>,
        r: &Ray,
        ray_t: Interval,
        best_in: Option<HitRecord>,
    ) -> (res: Option<HitRecord>)
        requires
            match child {
                Some(c) => tree_wf(**c) && box_t.is_some() == aabb_hit_spec(c.aabb, *r),
                None => true,
            },
            ray_wf(*r),
            ray_t.min >= 0,
            match best_in {
                Some(rec) => ivl_surrounds(ray_t, rec.t as int),
                None => true,
            },
        ensures
            hit_t(res) == opt_min_t(hit_t(best_in), seq_min_t(opt_tree_objs(*child), *r, ray_t)),
            match res {
                Some(rec) => (best_in == Some(rec) || seq_yields(
                    opt_tree_objs(*child),
                    *r,
                    ray_t,
                    rec,
                )) && ivl_surrounds(ray_t, rec.t as int),
                None => true,
            },
        decreases opt_tree_height(*child),
    {
        match child {
            None => best_in,
            Some(c) => {
                match box_t {
                    None => {
                        proof {
                            lemma_prune(**c, *r, ray_t);
                        }
                        best_in
                    },
                    Some(_) => {
                        let hi = match &best_in {
                            Some(rec) => rec.t,
                            None => ray_t.max,
                        };
                        let sub = c.hit(r, Interval { min: ray_t.min, max: hi });
                        proof {
                            let flat = tree_objs(**c);
                            lemma_scan_min(flat, *r, Interval { min: ray_t.min, max: hi });
                            lemma_scan_min(flat, *r, ray_t);
                            assert((Interval { min: ray_t.min, max: ray_t.max }) == ray_t);
                            lemma_seq_restrict(flat, *r, ray_t.min, ray_t.max, hi);
                            lemma_seq_props(flat, *r, ray_t);
                        }
                        match sub {
                            Some(rec2) => {
                                proof {
                                    lemma_seq_yields_lift(
                                        tree_objs(**c),
                                        *r,
                                        ray_t.min,
                                        hi,
                                        ray_t.max,
                                        rec2,
                                    );
                                }
                                Some(rec2)
                            },
                            None => best_in,
                        }
                    },
                }
            },
        }
    }
}

/// The bucket an object's centroid falls into along the split axis:
/// `floor((cv - min) / size * 12)`, clamped into `0 .. 12`.
fn bucket_index(cv: i64, axis_min: i64, axis_size: i64) -> (idx: i64)
    ensures
        idx as int == bucket_index_spec(cv as int, axis_min as int, axis_size as int),
        0 <= idx <= 11,
{
    let rel = fx_sub(cv, axis_min);
    let t = fx_div(rel, axis_size);
    let scaled = fx_mul(t, 12 * FX_ONE);
    if scaled <= 0 {
        0
    } else {
        let u = (scaled as u64) / (FX_ONE as u64);
        proof {
            assert(u as int == crate::fixed::flr(scaled as int, FX_ONE as int));
        }
        if u >= 11 {
            11
        } else {
            u as i64
        }
    }
}

/// An object count as a saturating fixed-point value, for the cost proxy.
fn saturate_count(c: i64) -> (r: i64)
    requires
        c >= 0,
    ensures
        r as int == sat_count_spec(c as int),
{
    if c > 0x7fff_ffff_ffff {
        0x7fff_ffff_ffff * 65536
    } else {
        c * 65536
    }
}

/// Three parts that add up (as multisets) to a whole each count every
/// object at most as often as the whole does.
proof fn lemma_sub_counts(
    l: Seq<crate::hit::Object>,
    r: Seq<crate::hit::Object>,
    b: Seq<crate::hit::Object>,
    whole: Seq<crate::hit::Object>,
)
    requires
        l.to_multiset().add(r.to_multiset()).add(b.to_multiset()) == whole.to_multiset(),
    ensures
        forall|o: crate::hit::Object|
            l.to_multiset().count(o) <= #[trigger] whole.to_multiset().count(o),
        forall|o: crate::hit::Object|
            r.to_multiset().count(o) <= #[trigger] whole.to_multiset().count(o),
        forall|o: crate::hit::Object|
            b.to_multiset().count(o) <= #[trigger] whole.to_multiset().count(o),
{
    broadcast use vstd::multiset::group_multiset_axioms;

}

} // verus!
