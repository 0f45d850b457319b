//! Camera and end-to-end rendering: the integrator's terminal cases and
//! the full-image agreement between the accelerated and the brute-force
//! structure under a fixed seed.

use rustrace::bvh::BVHTree;
use rustrace::camera::{AntiAliasing, Camera, CameraBuilder};
use rustrace::hit::Object;
use rustrace::hit_list::HittableList;
use rustrace::material::{Lambertian, Material};
use rustrace::ray::Ray;
use rustrace::rng::RandSrc;
use rustrace::sphere::Sphere;
use rustrace::utils::deg_to_rad;
use rustrace::vec3::Vec3;

const S: i64 = 65536;

fn v(x: i64, y: i64, z: i64) -> Vec3 {
    Vec3 {
        x: x * S,
        y: y * S,
        z: z * S,
    }
}

fn single_sphere_scene() -> HittableList {
    let mut list = HittableList::new();
    list.add(Object::Sphere(Sphere {
        centre: v(0, 0, -3),
        radius: S,
        mat: Material::Lambertian(Lambertian::new(Vec3 {
            x: S / 2,
            y: S / 3,
            z: S / 4,
        })),
    }));
    list
}

fn camera_for_test() -> Camera {
    CameraBuilder::default()
        .set_image_width(8)
        .set_aspect_ratio(S)
        .set_max_depth(8)
        .set_anti_aliasing(AntiAliasing::Random(1))
        .set_vfov(60)
        .set_look_from(v(0, 0, 0))
        .set_look_at(v(0, 0, -1))
        .set_v_up(v(0, 1, 0))
        .set_defocus_angle(0)
        .build()
}

#[test]
fn deg_to_rad_half_circle() {
    let r = deg_to_rad(180 * S);
    // pi in raw units, up to a rounding unit
    assert!((r - 205887).abs() <= 2);
}

#[test]
fn camera_build_dimensions() {
    let cam = camera_for_test();
    assert_eq!(cam.image_width, 8);
    assert_eq!(cam.height(), 8);
}

#[test]
fn ray_colour_depth_zero_is_black() {
    let world = Object::List(single_sphere_scene());
    let ray = Ray {
        origin: v(0, 0, 0),
        direction: v(0, 0, -1),
    };
    let mut rng = RandSrc::from_seed(1);
    let c = Camera::ray_colour(&ray, 0, &world, &mut rng);
    assert_eq!(c, Vec3 { x: 0, y: 0, z: 0 });
}

#[test]
fn ray_colour_miss_is_sky_gradient() {
    let world = Object::List(single_sphere_scene());
    let mut rng = RandSrc::from_seed(1);
    // straight up: the ray escapes and the gradient blends toward blue
    let up = Ray {
        origin: v(0, 0, 0),
        direction: v(0, 1, 0),
    };
    let c_up = Camera::ray_colour(&up, 4, &world, &mut rng);
    // at a = 1 the colour is exactly (0.5, 0.7, 1.0)
    assert_eq!(c_up.x, S / 2);
    assert_eq!(c_up.y, 45875);
    assert_eq!(c_up.z, S);
    // straight down: a = 0 gives pure white
    let down = Ray {
        origin: v(0, 0, 0),
        direction: v(0, -1, 0),
    };
    let c_down = Camera::ray_colour(&down, 4, &world, &mut rng);
    assert_eq!(c_down, Vec3 { x: S, y: S, z: S });
}

#[test]
fn ray_colour_hit_attenuates() {
    let world = Object::List(single_sphere_scene());
    let ray = Ray {
        origin: v(0, 0, 0),
        direction: v(0, 0, -1),
    };
    let mut rng = RandSrc::from_seed(5);
    let c = Camera::ray_colour(&ray, 8, &world, &mut rng);
    // the sphere's albedo halves the red channel at most
    assert!(c.x <= S / 2);
    assert!(c.y <= S / 3);
    assert!(c.z <= S / 4);
    assert!(c.x >= 0 && c.y >= 0 && c.z >= 0);
}

#[test]
fn render_row_has_width_pixels() {
    let cam = camera_for_test();
    let world = Object::List(single_sphere_scene());
    let mut rng = RandSrc::from_seed(3);
    let row = cam.render_row(&world, 4, &mut rng);
    assert_eq!(row.len(), 8);
}

#[test]
fn render_bvh_reproduces_brute_force_image() {
    // a single Lambertian sphere lit only by the sky gradient, a fixed
    // seed and one sample per pixel: the accelerated render must
    // reproduce the brute-force render exactly
    let cam = camera_for_test();
    let brute_world = Object::List(single_sphere_scene());
    let fast_world = Object::Bvh(BVHTree::from_hit_list(single_sphere_scene()));
    let mut rng1 = RandSrc::from_seed(42);
    let mut rng2 = RandSrc::from_seed(42);
    let img_brute = cam.render(&brute_world, &mut rng1);
    let img_fast = cam.render(&fast_world, &mut rng2);
    assert_eq!(img_brute.len(), 64);
    assert_eq!(img_brute, img_fast);
    // the image is not trivially black: the sky contributes everywhere
    assert!(img_brute.iter().any(|px| px[2] > 0));
}

#[test]
fn grid_sampling_is_deterministic() {
    // grid sub-pixel offsets draw no randomness at all (with no defocus),
    // so two renders agree even across different seeds
    let cam = CameraBuilder::default()
        .set_image_width(6)
        .set_aspect_ratio(S)
        .set_max_depth(2)
        .set_anti_aliasing(AntiAliasing::Grid(2))
        .set_vfov(60)
        .set_look_from(v(0, 0, 0))
        .set_look_at(v(0, 0, -1))
        .set_v_up(v(0, 1, 0))
        .set_defocus_angle(0)
        .build();
    // a diffuse floor so some rays bounce and terminate on depth
    let mut list = HittableList::new();
    list.add(Object::Sphere(Sphere {
        centre: v(0, -1001, 0),
        radius: 1000 * S,
        mat: Material::Lambertian(Lambertian::new(Vec3 {
            x: S / 2,
            y: S / 2,
            z: S / 2,
        })),
    }));
    let world = Object::List(list);
    let mut rng1 = RandSrc::from_seed(1);
    let mut rng2 = RandSrc::from_seed(99);
    let img1 = cam.render(&world, &mut rng1);
    let img2 = cam.render(&world, &mut rng2);
    assert_eq!(img1.len(), 36);
    // lambertian scattering draws randomness, so compare only the pure
    // sky rows, which are deterministic
    assert_eq!(img1[0], img2[0]);
    assert_eq!(img1[5], img2[5]);
}
