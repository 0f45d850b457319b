//! Scalar, interval, vector and bounding-box behaviour on concrete values.

use rustrace::aabb::{Aabb, SplitAxis};
use rustrace::fixed::{fx_add, fx_div, fx_mul, fx_sqrt, fx_sub, FX_MAX, FX_ONE};
use rustrace::interval::Interval;
use rustrace::ray::Ray;
use rustrace::vec3::{cross, dot, Vec3};

const S: i64 = 65536;

fn v(x: i64, y: i64, z: i64) -> Vec3 {
    Vec3 {
        x: x * S,
        y: y * S,
        z: z * S,
    }
}

#[test]
fn fixed_point_arithmetic_exact() {
    assert_eq!(fx_add(2 * S, 3 * S), 5 * S);
    assert_eq!(fx_sub(2 * S, 3 * S), -S);
    assert_eq!(fx_mul(2 * S, 3 * S), 6 * S);
    assert_eq!(fx_div(6 * S, 3 * S), 2 * S);
    assert_eq!(fx_sqrt(4 * S), 2 * S);
    assert_eq!(fx_sqrt(S), S);
    assert_eq!(fx_sqrt(-S), 0);
    // division by zero saturates with the dividend's sign
    assert_eq!(fx_div(S, 0), FX_MAX);
    assert_eq!(fx_div(-S, 0), -FX_MAX);
    assert_eq!(fx_div(0, 0), 0);
    // saturation instead of wrap-around
    assert_eq!(fx_add(FX_MAX, FX_MAX), FX_MAX);
    assert_eq!(fx_sub(-FX_MAX, FX_MAX), -FX_MAX);
}

#[test]
fn interval_size_contains_surrounds() {
    let i = Interval::new(0, S);
    assert_eq!(i.size(), S);
    // closed membership includes endpoints
    assert!(i.contains(0));
    assert!(i.contains(S));
    assert!(!i.contains(-1));
    assert!(!i.contains(S + 1));
    // open membership excludes endpoints: contains and surrounds differ
    // exactly at the boundary
    assert!(!i.surrounds(0));
    assert!(!i.surrounds(S));
    assert!(i.surrounds(1));
    assert!(i.surrounds(S - 1));
}

#[test]
fn interval_overlaps_is_symmetric() {
    let i0 = Interval::new(0, S);
    let i1 = Interval::new(-S, 0);
    let i2 = Interval::new(-S, -1);
    // touching exactly at an endpoint counts as overlap
    assert!(i0.overlaps(&i1));
    assert!(i1.overlaps(&i0));
    assert!(!i0.overlaps(&i2));
    assert!(!i2.overlaps(&i0));
    assert!(i1.overlaps(&i2));
    assert!(i2.overlaps(&i1));
}

#[test]
fn interval_union_and_empty_identity() {
    let mut i0 = Interval::new(0, S);
    let i1 = Interval::new(-S, 0);
    i0.union(&i1);
    assert_eq!(i0.min, -S);
    assert_eq!(i0.max, S);

    let mut e = Interval::empty();
    e.union(&Interval::new(3 * S, 5 * S));
    assert_eq!(e.min, 3 * S);
    assert_eq!(e.max, 5 * S);
}

#[test]
fn interval_clamp_and_mid() {
    let i = Interval::new(0, S);
    assert_eq!(i.clamp(42 * S), S);
    assert_eq!(i.clamp(-42 * S), 0);
    assert_eq!(i.clamp(S / 2), S / 2);
    assert_eq!(Interval::new(-S, S).mid(), 0);
}

#[test]
fn vec3_products_and_length() {
    let v0 = v(1, 0, 0);
    let v1 = v(0, 1, 0);
    let v2 = v(3, 0, 0);
    assert_eq!(dot(&v0, &v1), 0);
    assert_eq!(dot(&v0, &v2), 3 * S);
    assert_eq!(v(2, 2, 2).length_squared(), 12 * S);
    assert_eq!(v(3, 4, 0).length(), 5 * S);
    let c = cross(&v0, &v1);
    assert_eq!(c, v(0, 0, 1));
}

#[test]
fn vec3_reflect_mirrors() {
    let r = v(1, 1, 0).reflect(&v(-1, 0, 0));
    assert_eq!(r, v(-1, 1, 0));
}

#[test]
fn vec3_to_rgb_gamma() {
    let c = v(1, 0, 0).to_rgb();
    assert_eq!(c, [255, 0, 0]);
    let quarter = Vec3 {
        x: S / 4,
        y: 0,
        z: 0,
    };
    // gamma corrects 0.25 to 0.5
    assert_eq!(quarter.to_rgb()[0], 128);
}

#[test]
fn aabb_union_covers_both() {
    let mut a0 = Aabb {
        x: Interval::new(0, S),
        y: Interval::new(0, S),
        z: Interval::new(0, S),
    };
    let a1 = Aabb {
        x: Interval::new(-S, 0),
        y: Interval::new(0, S),
        z: Interval::new(-S, 0),
    };
    a0.union(&a1);
    assert_eq!(a0.x.min, -S);
    assert_eq!(a0.x.max, S);
    assert_eq!(a0.z.min, -S);
    assert_eq!(a0.z.max, S);
    // the union overlaps and encloses both operands, and its surface area
    // dominates each
    assert!(a0.overlaps(&a1));
    let a2 = Aabb {
        x: Interval::new(0, S),
        y: Interval::new(0, S),
        z: Interval::new(0, S),
    };
    assert!(a0.overlaps(&a2));
    assert!(a0.encloses(&a1));
    assert!(a0.encloses(&a2));
    assert!(a0.surface_area() >= a1.surface_area());
    assert!(a0.surface_area() >= a2.surface_area());
}

#[test]
fn aabb_surface_area_unit_cube() {
    let cube = Aabb {
        x: Interval::new(0, S),
        y: Interval::new(0, S),
        z: Interval::new(0, S),
    };
    assert_eq!(cube.surface_area(), 6 * S);
}

#[test]
fn aabb_overlap_disjoint_boxes() {
    let a0 = Aabb {
        x: Interval::new(0, S),
        y: Interval::new(0, S),
        z: Interval::new(0, S),
    };
    let far = Aabb {
        x: Interval::new(-S, -S / 10),
        y: Interval::new(0, S),
        z: Interval::new(-S, -S / 10),
    };
    assert!(!a0.overlaps(&far));
}

#[test]
fn aabb_ray_hit_and_miss() {
    let cube = Aabb {
        x: Interval::new(-S, S),
        y: Interval::new(-S, S),
        z: Interval::new(-S, S),
    };
    let hit_ray = Ray {
        origin: v(2, 0, 0),
        direction: v(-1, 0, 0),
    };
    let hit = cube.ray_hit(&hit_ray);
    // the nearer face plane x == 1 is crossed at exactly t = 1
    assert_eq!(hit, Some(S));

    let miss_ray = Ray {
        origin: v(2, 0, 0),
        direction: v(0, -1, 0),
    };
    assert!(cube.ray_hit(&miss_ray).is_none());

    // origin inside: entry at zero
    let inside_ray = Ray {
        origin: v(0, 0, 0),
        direction: v(1, 0, 0),
    };
    assert_eq!(cube.ray_hit(&inside_ray), Some(0));
}

#[test]
fn aabb_split_shares_plane() {
    let cube = Aabb {
        x: Interval::new(-S, S),
        y: Interval::new(-S, S),
        z: Interval::new(-S, S),
    };
    let (left, right) = cube.split_at(SplitAxis::X, 0);
    assert_eq!(left.x.min, -S);
    assert_eq!(left.x.max, 0);
    assert_eq!(right.x.min, 0);
    assert_eq!(right.x.max, S);
    // adjacent halves still overlap at the shared boundary
    assert!(left.overlaps(&right));
}

#[test]
fn split_axis_picks_longest() {
    let wide = Aabb {
        x: Interval::new(-3 * S, 3 * S),
        y: Interval::new(0, S),
        z: Interval::new(0, S),
    };
    assert_eq!(SplitAxis::choose_from_aabb(wide), SplitAxis::X);
    let tall = Aabb {
        x: Interval::new(0, S),
        y: Interval::new(-3 * S, 3 * S),
        z: Interval::new(0, S),
    };
    assert_eq!(SplitAxis::choose_from_aabb(tall), SplitAxis::Y);
}
