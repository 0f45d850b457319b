//! Scene container and BVH behaviour: the builder's invariant, the
//! explicit verification pass, and agreement between accelerated and
//! brute-force intersection.

use rustrace::bvh::BVHTree;
use rustrace::hit::Object;
use rustrace::hit_list::HittableList;
use rustrace::interval::Interval;
use rustrace::material::{Lambertian, Material};
use rustrace::mesh::Mesh;
use rustrace::ray::Ray;
use rustrace::sphere::Sphere;
use rustrace::triangle::Triangle;
use rustrace::vec3::Vec3;

const S: i64 = 65536;

fn v(x: i64, y: i64, z: i64) -> Vec3 {
    Vec3 {
        x: x * S,
        y: y * S,
        z: z * S,
    }
}

fn grey() -> Material {
    Material::Lambertian(Lambertian::new(Vec3 {
        x: S / 2,
        y: S / 2,
        z: S / 2,
    }))
}

fn sphere_at(x: i64, y: i64, z: i64, radius: i64) -> Object {
    Object::Sphere(Sphere {
        centre: v(x, y, z),
        radius,
        mat: grey(),
    })
}

fn test_scene() -> HittableList {
    let mut list = HittableList::new();
    for k in -4i64..5 {
        list.add(sphere_at(2 * k, 0, -8, S / 2));
        list.add(sphere_at(0, k, -3 * k - 12, S / 3));
    }
    list.add(sphere_at(0, -1001, 0, 1000 * S));
    list.add(Object::Triangle(Triangle::new(
        v(3, 1, -6),
        v(4, 1, -6),
        v(3, 2, -6),
        None,
        grey(),
    )));
    list
}

fn test_scene_duplicate() -> HittableList {
    test_scene()
}

fn full_interval() -> Interval {
    Interval::new(S / 1000, i64::MAX)
}

#[test]
fn list_operations() {
    let mut list = HittableList::new();
    assert_eq!(list.objects.len(), 0);
    list.add(sphere_at(0, 0, 0, S));
    assert_eq!(list.objects.len(), 1);
    let mut other = HittableList::new();
    other.add(sphere_at(1, 0, 0, S));
    other.add(sphere_at(2, 0, 0, S));
    list.combine(other);
    assert_eq!(list.objects.len(), 3);
    list.clear();
    assert_eq!(list.objects.len(), 0);
}

#[test]
fn list_bound_covers_members() {
    let list = test_scene();
    let b = list.bound();
    // the huge ground sphere dominates the bound
    assert!(b.y.min <= -2000 * S);
    assert!(b.x.min <= -1000 * S);
    assert!(b.x.max >= 1000 * S);
}

#[test]
fn bvh_verification_pass_confirms_bounds() {
    // the recursive verification pass confirms that every node's box
    // contains the bound of every object and subtree beneath it
    let tree = BVHTree::from_hit_list(test_scene());
    assert!(tree.verify());
}

#[test]
fn bvh_bound_equals_list_bound() {
    let list_bound = test_scene().bound();
    let tree = BVHTree::from_hit_list(test_scene_duplicate());
    assert_eq!(tree.bound(), list_bound);
}

#[test]
fn bvh_hit_matches_linear_scan() {
    // the acceleration structure never changes the result, only the
    // speed: for a fan of rays, the BVH and the brute-force scan agree
    // on hit-or-miss and on the hit parameter
    let list = test_scene();
    let tree = BVHTree::from_hit_list(test_scene_duplicate());
    let mut checked_hits = 0;
    for dx in -6i64..7 {
        for dy in -3i64..4 {
            let ray = Ray {
                origin: v(0, 0, 2),
                direction: Vec3 {
                    x: dx * S / 3,
                    y: dy * S / 3,
                    z: -S,
                },
            };
            let brute = list.hit(&ray, full_interval());
            let fast = tree.hit(&ray, full_interval());
            assert_eq!(brute.is_some(), fast.is_some());
            if let (Some(b), Some(f)) = (brute, fast) {
                assert_eq!(b.t, f.t);
                checked_hits += 1;
            }
        }
    }
    assert!(checked_hits > 10, "the ray fan should actually hit the scene");
}

#[test]
fn bvh_miss_everything() {
    let tree = BVHTree::from_hit_list(test_scene_duplicate());
    let up = Ray {
        origin: v(0, 3, 0),
        direction: v(0, 1, 0),
    };
    assert!(tree.hit(&up, full_interval()).is_none());
}

#[test]
fn mesh_delegates_to_its_bvh() {
    let mut tris = HittableList::new();
    tris.add(Object::Triangle(Triangle::new(
        v(0, 0, -4),
        v(1, 0, -4),
        v(0, 1, -4),
        None,
        grey(),
    )));
    tris.add(Object::Triangle(Triangle::new(
        v(0, 0, -6),
        v(1, 0, -6),
        v(0, 1, -6),
        None,
        grey(),
    )));
    let mesh = Mesh::from_hit_list(tris);
    let ray = Ray {
        origin: Vec3 {
            x: S / 4,
            y: S / 4,
            z: 0,
        },
        direction: v(0, 0, -1),
    };
    let rec = mesh.hit(&ray, full_interval()).expect("the nearer triangle is hit");
    assert_eq!(rec.t, 4 * S);
    assert_eq!(mesh.bound().z.min, -6 * S);

    // a mesh nested inside a scene keeps the same answer
    let mut scene = HittableList::new();
    scene.add(Object::Mesh(mesh));
    let rec2 = scene.hit(&ray, full_interval()).expect("nested mesh is hit");
    assert_eq!(rec2.t, 4 * S);
}

#[test]
fn bvh_from_empty_list_is_a_leaf_that_misses() {
    let tree = BVHTree::from_hit_list(HittableList::new());
    assert!(tree.verify());
    let ray = Ray {
        origin: v(0, 0, 0),
        direction: v(0, 0, -1),
    };
    assert!(tree.hit(&ray, full_interval()).is_none());
}

#[test]
fn bvh_from_single_object() {
    let mut list = HittableList::new();
    list.add(sphere_at(0, 0, -5, S));
    let tree = BVHTree::from_hit_list(list);
    assert!(tree.verify());
    let ray = Ray {
        origin: v(0, 0, 0),
        direction: v(0, 0, -1),
    };
    let rec = tree.hit(&ray, full_interval()).expect("must hit");
    assert_eq!(rec.t, 4 * S);
}

#[test]
fn bvh_with_duplicate_objects_agrees_with_scan() {
    // several identical spheres at the same spot: ties in t must not
    // change hit-or-miss or the hit parameter
    let mut list = HittableList::new();
    for _ in 0..5 {
        list.add(sphere_at(0, 0, -5, S));
        list.add(sphere_at(2, 0, -5, S));
    }
    let mut list2 = HittableList::new();
    for _ in 0..5 {
        list2.add(sphere_at(0, 0, -5, S));
        list2.add(sphere_at(2, 0, -5, S));
    }
    let tree = BVHTree::from_hit_list(list2);
    assert!(tree.verify());
    let ray = Ray {
        origin: v(0, 0, 0),
        direction: v(0, 0, -1),
    };
    let brute = list.hit(&ray, full_interval()).expect("must hit");
    let fast = tree.hit(&ray, full_interval()).expect("must hit");
    assert_eq!(brute.t, fast.t);
    assert_eq!(brute.t, 4 * S);
}

#[test]
fn nearest_of_overlapping_spheres_wins() {
    let mut list = HittableList::new();
    list.add(sphere_at(0, 0, -5, S));
    list.add(sphere_at(0, 0, -3, S));
    list.add(sphere_at(0, 0, -7, S));
    let ray = Ray {
        origin: v(0, 0, 0),
        direction: v(0, 0, -1),
    };
    let rec = list.hit(&ray, full_interval()).expect("must hit");
    assert_eq!(rec.t, 2 * S);
    let tree = BVHTree::from_hit_list(list);
    let rec2 = tree.hit(&ray, full_interval()).expect("must hit");
    assert_eq!(rec2.t, 2 * S);
}
