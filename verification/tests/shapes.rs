//! Sphere and triangle intersection and material scattering on concrete
//! values.

use rustrace::fixed::FX_ONE;
use rustrace::hit::HitRecord;
use rustrace::interval::Interval;
use rustrace::material::{Dielectric, Lambertian, Material, Metal};
use rustrace::ray::Ray;
use rustrace::rng::RandSrc;
use rustrace::sphere::Sphere;
use rustrace::triangle::Triangle;
use rustrace::vec3::Vec3;

const S: i64 = 65536;

fn v(x: i64, y: i64, z: i64) -> Vec3 {
    Vec3 {
        x: x * S,
        y: y * S,
        z: z * S,
    }
}

fn grey() -> Material {
    Material::Lambertian(Lambertian::new(Vec3 {
        x: S / 2,
        y: S / 2,
        z: S / 2,
    }))
}

fn full_interval() -> Interval {
    Interval::new(S / 1000, i64::MAX)
}

#[test]
fn sphere_hit_head_on_at_one() {
    // a ray from (2,0,0) toward (-1,0,0) against a unit sphere at the
    // origin hits at exactly t = 1
    let sphere = Sphere {
        centre: v(0, 0, 0),
        radius: S,
        mat: grey(),
    };
    let ray = Ray {
        origin: v(2, 0, 0),
        direction: v(-1, 0, 0),
    };
    let rec = sphere.hit(&ray, full_interval()).expect("head-on ray must hit");
    assert_eq!(rec.t, S);
    assert_eq!(rec.p, v(1, 0, 0));
    assert!(rec.front_face);
    assert_eq!(rec.norm, v(1, 0, 0));
}

#[test]
fn sphere_miss_sideways() {
    let sphere = Sphere {
        centre: v(0, 0, 0),
        radius: S,
        mat: grey(),
    };
    let ray = Ray {
        origin: v(2, 0, 0),
        direction: v(0, -1, 0),
    };
    assert!(sphere.hit(&ray, full_interval()).is_none());
}

#[test]
fn sphere_inside_hits_far_root() {
    // from the centre, the near root is behind the interval's lower end;
    // the far root at t = 1 is returned
    let sphere = Sphere {
        centre: v(0, 0, 0),
        radius: S,
        mat: grey(),
    };
    let ray = Ray {
        origin: v(0, 0, 0),
        direction: v(1, 0, 0),
    };
    let rec = sphere.hit(&ray, full_interval()).expect("inside ray must hit");
    assert_eq!(rec.t, S);
    assert!(!rec.front_face);
}

#[test]
fn sphere_new_clamps_negative_radius() {
    let s = Sphere::new(v(0, 0, 0), -5 * S, grey());
    assert_eq!(s.radius, 0);
}

#[test]
fn sphere_bound_is_centre_plus_minus_radius() {
    let s = Sphere {
        centre: v(1, 2, 3),
        radius: 2 * S,
        mat: grey(),
    };
    let b = s.bound();
    assert_eq!(b.x.min, -S);
    assert_eq!(b.x.max, 3 * S);
    assert_eq!(b.y.min, 0);
    assert_eq!(b.y.max, 4 * S);
    assert_eq!(b.z.min, S);
    assert_eq!(b.z.max, 5 * S);
}

#[test]
fn triangle_hit_orthogonal_centered() {
    // a unit triangle in the XY plane, met orthogonally: barycentric
    // coordinates are exact and t matches the plane's distance
    let tri = Triangle::new(v(0, 0, 0), v(1, 0, 0), v(0, 1, 0), None, grey());
    let ray = Ray {
        origin: Vec3 {
            x: S / 4,
            y: S / 4,
            z: -S,
        },
        direction: v(0, 0, 1),
    };
    let rec = tri.hit(&ray, full_interval()).expect("orthogonal ray must hit");
    assert_eq!(rec.t, S);
    assert_eq!(
        rec.p,
        Vec3 {
            x: S / 4,
            y: S / 4,
            z: 0
        }
    );
    // the flat face normal is (0,0,1); the record's normal faces the ray
    assert_eq!(rec.norm.x, 0);
    assert_eq!(rec.norm.y, 0);
    assert!(rec.norm.z < 0);
}

#[test]
fn triangle_miss_outside_barycentric_range() {
    let tri = Triangle::new(v(0, 0, 0), v(1, 0, 0), v(0, 1, 0), None, grey());
    // beyond the hypotenuse: u + v > 1
    let ray = Ray {
        origin: Vec3 {
            x: 3 * S / 4,
            y: 3 * S / 4,
            z: -S,
        },
        direction: v(0, 0, 1),
    };
    assert!(tri.hit(&ray, full_interval()).is_none());
    // parallel to the plane: zero determinant
    let parallel = Ray {
        origin: v(0, 0, -1),
        direction: v(1, 0, 0),
    };
    assert!(tri.hit(&parallel, full_interval()).is_none());
}

#[test]
fn triangle_respects_interval() {
    let tri = Triangle::new(v(0, 0, 0), v(1, 0, 0), v(0, 1, 0), None, grey());
    let ray = Ray {
        origin: Vec3 {
            x: S / 4,
            y: S / 4,
            z: -S,
        },
        direction: v(0, 0, 1),
    };
    // the hit at t = 1 is outside an interval capped below one
    assert!(tri.hit(&ray, Interval::new(S / 1000, S / 2)).is_none());
}

#[test]
fn triangle_bound_spans_vertices() {
    let tri = Triangle::new(v(0, 0, 0), v(1, 0, 0), v(0, 1, 0), None, grey());
    let b = tri.bound();
    assert_eq!(b.x.min, 0);
    assert_eq!(b.x.max, S);
    assert_eq!(b.y.min, 0);
    assert_eq!(b.y.max, S);
    assert_eq!(b.z.min, 0);
    assert_eq!(b.z.max, 0);
}

#[test]
fn lambertian_scatter_keeps_albedo_and_origin() {
    let albedo = Vec3 {
        x: S / 2,
        y: S / 4,
        z: S / 8,
    };
    let mat = Material::Lambertian(Lambertian::new(albedo));
    let rec = HitRecord {
        p: v(1, 2, 3),
        norm: v(0, 0, 1),
        mat,
        t: S,
        front_face: true,
    };
    let ray = Ray {
        origin: v(0, 0, 0),
        direction: v(0, 0, -1),
    };
    let mut rng = RandSrc::from_seed(7);
    let (scattered, attenuation) = mat.scatter(&ray, &rec, &mut rng).expect("always scatters");
    assert_eq!(scattered.origin, rec.p);
    assert_eq!(attenuation, albedo);
}

#[test]
fn metal_scatter_with_zero_fuzz_reflects() {
    let albedo = Vec3 { x: S, y: S, z: S };
    let mat = Material::Metal(Metal::new(albedo, 0));
    let rec = HitRecord {
        p: v(0, 0, 0),
        norm: v(0, 0, 1),
        mat,
        t: S,
        front_face: true,
    };
    // incoming at 45 degrees in the XZ plane
    let ray = Ray {
        origin: v(-1, 0, 1),
        direction: v(1, 0, -1),
    };
    let mut rng = RandSrc::from_seed(7);
    let (scattered, attenuation) = mat.scatter(&ray, &rec, &mut rng).expect("always scatters");
    assert_eq!(attenuation, albedo);
    assert_eq!(scattered.origin, rec.p);
    // the mirror direction of (1,0,-1) about (0,0,1) is (1,0,1); with zero
    // fuzz only normalization rounding remains
    assert!(scattered.direction.x > 0);
    assert!(scattered.direction.z > 0);
    assert!((scattered.direction.x - scattered.direction.z).abs() <= 4);
    assert!(scattered.direction.y.abs() <= 4);
}

#[test]
fn dielectric_unit_ratio_leaves_direction_unchanged() {
    // at a refractive-index ratio of one there is no bend at all
    let mat = Material::Dielectric(Dielectric::new(FX_ONE));
    let rec = HitRecord {
        p: v(0, 0, 0),
        norm: v(0, 0, 1),
        mat,
        t: S,
        front_face: true,
    };
    let ray = Ray {
        origin: v(0, 0, 1),
        direction: v(0, 0, -1),
    };
    let mut rng = RandSrc::from_seed(7);
    let (scattered, attenuation) = mat.scatter(&ray, &rec, &mut rng).expect("always scatters");
    assert_eq!(attenuation, Vec3 { x: S, y: S, z: S });
    assert_eq!(scattered.direction, v(0, 0, -1));

    // off-axis, the direction survives within rounding tolerance
    let slanted = Ray {
        origin: v(0, 0, 1),
        direction: Vec3 {
            x: 39322,  // 0.6
            y: 0,
            z: -52429, // -0.8
        },
    };
    let (scattered2, _) = mat.scatter(&slanted, &rec, &mut rng).expect("always scatters");
    assert!((scattered2.direction.x - 39322).abs() <= 64);
    assert!(scattered2.direction.y.abs() <= 64);
    assert!((scattered2.direction.z + 52429).abs() <= 64);
}

#[test]
fn dielectric_reflectance_at_normal_incidence() {
    // Schlick at cos = 1 collapses to r0
    let r = Dielectric::reflectance(FX_ONE, FX_ONE);
    assert_eq!(r, 0);
}

#[test]
fn random_draws_respect_their_ranges() {
    let mut rng = RandSrc::from_seed(123);
    for _ in 0..200 {
        let u = rng.next_unit();
        assert!((0..S).contains(&u));
        let c = rng.next_closed_unit();
        assert!((0..=S).contains(&c));
        let sym = rng.next_symmetric();
        assert!((-S..=S).contains(&sym));
    }
    for _ in 0..50 {
        let v01 = Vec3::random(&mut rng);
        assert!((0..=S).contains(&v01.x) && (0..=S).contains(&v01.y) && (0..=S).contains(&v01.z));
        let vr = Vec3::random_in(-2 * S, 3 * S, &mut rng);
        assert!((-2 * S..=3 * S).contains(&vr.x));
        assert!((-2 * S..=3 * S).contains(&vr.y));
        assert!((-2 * S..=3 * S).contains(&vr.z));
        let unit = Vec3::random_unit(&mut rng);
        assert!(unit.x.abs() <= S && unit.y.abs() <= S && unit.z.abs() <= S);
        // the sampler rejects degenerate draws, so the result has length
        // close to one
        let len = unit.length();
        assert!((len - S).abs() < S / 8, "unit length {len}");
        let hemi = Vec3::random_on_hemi(Vec3 { x: 0, y: 0, z: S }, &mut rng);
        assert!(rustrace::vec3::dot(&hemi, &Vec3 { x: 0, y: 0, z: S }) >= 0);
        let disc = Vec3::random_in_unit_disc(&mut rng);
        assert_eq!(disc.z, 0);
        assert!(disc.length_squared() < S);
    }
}

#[test]
fn dielectric_total_internal_reflection_reflects() {
    // leaving glass (back face) at a shallow angle: Snell's law admits no
    // refraction, so reflection is forced regardless of the random draw
    let mat = Material::Dielectric(Dielectric::new(98304)); // 1.5
    let rec = HitRecord {
        p: v(0, 0, 0),
        norm: v(0, 0, 1),
        mat,
        t: S,
        front_face: false,
    };
    let ray = Ray {
        origin: v(0, 0, 1),
        direction: Vec3 {
            x: 52429,  // 0.8
            y: 0,
            z: -39322, // -0.6: sin of incidence is 0.8, and 1.5 * 0.8 > 1
        },
    };
    let mut rng = RandSrc::from_seed(11);
    let (scattered, _) = mat.scatter(&ray, &rec, &mut rng).expect("always scatters");
    // the mirror reflection flips the vertical component upward
    assert!(scattered.direction.z > 0);
    assert!(scattered.direction.x > 0);
}
