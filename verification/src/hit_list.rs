//! The scene container: an ordered, flat list of intersectable objects.
//! It is both the brute-force intersection strategy (a linear scan that is
//! proved to return the globally nearest hit) and the build input to the
//! bounding volume hierarchy.

use vstd::prelude::*;

verus! {

use crate::aabb::Aabb;
use crate::hit::HitRecord;
use crate::hit::Object;
use crate::hit::hit_t;
use crate::hit::lemma_obj_yields_lift;
use crate::hit::lemma_scan_snoc;
use crate::hit::lemma_seq_height_index;
use crate::hit::obj_wf;
use crate::hit::obj_yields;
use crate::hit::ray_wf;
use crate::hit::seq_bound;
use crate::hit::seq_height;
use crate::hit::seq_scan_spec;
use crate::hit::seq_wf;
use crate::hit::seq_yields;
use crate::interval::Interval;
use crate::interval::ivl_surrounds;
use crate::ray::Ray;

/// A flat list of owned intersectable objects.
#[derive(Debug)]
pub struct HittableList {
    /// The objects in the list.
    pub objects: Vec<Object>,
}

impl HittableList {
    /// Create a new, empty list.
    pub fn new() -> (r: HittableList)
        ensures
            r.objects@ =~= Seq::<Object>::empty(),
    {
        HittableList { objects: Vec::new() }
    }

    /// Clear out the list.
    pub fn clear(&mut self)
        ensures
            final(self).objects@ =~= Seq::<Object>::empty(),
    {
        self.objects.clear();
    }

    /// Push an object into the list.
    pub fn add(&mut self, object: Object)
        ensures
            final(self).objects@ == old(self).objects@.push(object),
    {
        self.objects.push(object);
    }

    /// Append every object of `other` onto the end of `self`.
    pub fn combine(&mut self, other: HittableList)
        ensures
            final(self).objects@ == old(self).objects@ + other.objects@,
    {
        let mut other = other;
        self.objects.append(&mut other.objects);
    }

    /// The minimal box that contains every object in the list.
    pub fn bound(&self) -> (r: Aabb)
        ensures
            r == seq_bound(self.objects@),
        decreases seq_height(self.objects@),
    {
        let ghost s = self.objects@;
        let n = self.objects.len();
        let mut acc = Aabb::new();
        let mut i = n;
        while i > 0
            invariant
                i <= n,
                n == self.objects.len(),
                s == self.objects@,
                acc == seq_bound(s.subrange(i as int, n as int)),
            decreases i,
        {
            i = i - 1;
            proof {
                lemma_seq_height_index(s, i as int);
                assert(s.subrange(i as int, n as int)[0] == s[i as int]);
                assert(s.subrange(i as int, n as int).subrange(
                    1,
                    (n - i) as int,
                ) =~= s.subrange(i as int + 1, n as int));
            }
            let mut b = self.objects[i].bound();
            b.union(&acc);
            acc = b;
        }
        proof {
            assert(s.subrange(0, n as int) =~= s);
        }
        acc
    }

    /// Check every object in the list against the ray, shrinking the valid
    /// interval's upper end to the closest hit found so far: the returned
    /// hit, if any, is at the globally nearest parameter within `ray_t`.
    pub fn hit(&self, r: &Ray, ray_t: Interval) -> (res: Option<HitRecord>)
        requires
            seq_wf(self.objects@),
            ray_wf(*r),
            ray_t.min >= 0,
        ensures
            hit_t(res) == hit_t(seq_scan_spec(self.objects@, *r, ray_t)),
            match res {
                Some(rec) => seq_yields(self.objects@, *r, ray_t, rec) && ivl_surrounds(
                    ray_t,
                    rec.t as int,
                ),
                None => true,
            },
        decreases seq_height(self.objects@),
    {
        let ghost s = self.objects@;
        let mut out_rec: Option<HitRecord> = None;
        let mut closest_so_far: i64 = ray_t.max;
        let n = self.objects.len();
        let mut i: usize = 0;
        while i < n
            invariant
                i <= n,
                n == self.objects.len(),
                s == self.objects@,
                seq_wf(s),
                ray_wf(*r),
                ray_t.min >= 0,
                hit_t(out_rec) == hit_t(seq_scan_spec(s.take(i as int), *r, ray_t)),
                match out_rec {
                    Some(rec) => seq_yields(s.take(i as int), *r, ray_t, rec) && ivl_surrounds(
                        ray_t,
                        rec.t as int,
                    ) && closest_so_far == rec.t,
                    None => closest_so_far == ray_t.max,
                },
            decreases n - i,
        {
            proof {
                lemma_seq_height_index(s, i as int);
                assert(obj_wf(s[i as int]));
                assert((Interval { min: ray_t.min, max: ray_t.max }) == ray_t);
            }
            let res = self.objects[i].hit(r, Interval { min: ray_t.min, max: closest_so_far });
            proof {
                lemma_scan_snoc(s.take(i as int), s[i as int], *r, ray_t);
                assert(s.take(i as int).push(s[i as int]) =~= s.take(i as int + 1));
            }
            match res {
                Some(rec2) => {
                    proof {
                        lemma_obj_yields_lift(
                            s[i as int],
                            *r,
                            ray_t.min,
                            closest_so_far,
                            ray_t.max,
                            rec2,
                        );
                        assert(s.take(i as int + 1)[i as int] == s[i as int]);
                        assert(seq_yields(s.take(i as int + 1), *r, ray_t, rec2));
                    }
                    out_rec = Some(rec2);
                    closest_so_far = rec2.t;
                },
                None => {
                    proof {
                        match out_rec {
                            Some(rec) => {
                                let j = choose|j: int|
                                    0 <= j < s.take(i as int).len() && obj_yields(
                                        #[trigger] s.take(i as int)[j],
                                        *r,
                                        ray_t,
                                        rec,
                                    );
                                assert(s.take(i as int + 1)[j] == s.take(i as int)[j]);
                                assert(seq_yields(s.take(i as int + 1), *r, ray_t, rec));
                            },
                            None => {},
                        }
                    }
                },
            }
            i = i + 1;
        }
        proof {
            assert(s.take(n as int) =~= s);
        }
        out_rec
    }
}

} // verus!
