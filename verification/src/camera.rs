//! The camera and render driver: builds the viewport geometry, generates
//! per-pixel sample rays (grid-jittered or uniformly random sub-pixel
//! offsets, with an optional thin-lens defocus disc), estimates radiance
//! with the recursive integrator, and assembles gamma-corrected rows of
//! 8-bit pixels.

use vstd::prelude::*;

verus! {

use crate::aabb::B_COORD;
use crate::fixed::FX_HALF;
use crate::fixed::FX_MAX;
use crate::fixed::FX_ONE;
use crate::fixed::fx_add;
use crate::fixed::fx_div;
use crate::fixed::fx_max;
use crate::fixed::fx_min;
use crate::fixed::fx_mul;
use crate::fixed::fx_sub;
use crate::fixed::lemma_fx_mul_contract;
use crate::fixed::lemma_fx_mul_unit;
use crate::hit::Object;
use crate::hit::obj_hit_spec;
use crate::hit::obj_wf;
use crate::hit::ray_wf;
use crate::interval::Interval;
use crate::hit::HitRecord;
use crate::hit::obj_yields;
use crate::material::channel_wf;
use crate::material::mat_albedo;
use crate::ray::Ray;
use crate::rng::RandSrc;
use crate::utils::deg_to_rad;
use crate::utils::tan_fx;
use crate::vec3::Vec3;
use crate::vec3::cross;
use crate::vec3::v3_add;
use crate::vec3::v3_mul;
use crate::vec3::v3_scale;
use crate::vec3::v3_unit;

/// The minimum ray parameter for a scattered bounce: excludes
/// self-intersection at the origin of the next bounce.
pub const T_MIN_EPS: i64 = 66;

/// How sub-pixel sample offsets are chosen: a fixed grid of the given
/// side, or the given number of uniformly random offsets.
#[derive(Clone, Copy, Debug, PartialEq, Eq, Structural)]
pub enum AntiAliasing {
    Grid(u16),
    Random(u16),
}

/// The builder for a [`Camera`]: all the human-facing parameters.
#[derive(Clone, Copy, Debug)]
pub struct CameraBuilder {
    pub aspect_ratio: i64,
    pub image_width: u32,
    pub anti_aliasing: AntiAliasing,
    pub max_depth: u32,
    pub vfov: u16,
    pub look_from: Vec3,
    pub look_at: Vec3,
    pub v_up: Vec3,
    pub defocus_angle: i64,
    pub focus_dist: i64,
}

impl Default for CameraBuilder {
    /// A square, hundred-pixel-wide camera at the origin looking down the
    /// negative Z axis.
    fn default() -> (r: CameraBuilder)
        ensures
            r.look_from == (Vec3 { x: 0, y: 0, z: 0 }),
    {
        CameraBuilder {
            aspect_ratio: FX_ONE,
            image_width: 100,
            anti_aliasing: AntiAliasing::Grid(4),
            max_depth: 10,
            vfov: 90,
            look_from: Vec3 { x: 0, y: 0, z: 0 },
            look_at: Vec3 { x: 0, y: 0, z: -FX_ONE },
            v_up: Vec3 { x: 0, y: FX_ONE, z: 0 },
            defocus_angle: 0,
            focus_dist: 10 * FX_ONE,
        }
    }
}

/// The spec mirror of `clamp_coord`.
pub open spec fn clamp_coord_spec(v: int) -> int {
    let m = if B_COORD <= v {
        B_COORD as int
    } else {
        v
    };
    if -B_COORD >= m {
        -(B_COORD as int)
    } else {
        m
    }
}

/// The spec mirror of `clamp_vec`.
pub open spec fn clamp_vec_spec(v: Vec3) -> Vec3 {
    Vec3 {
        x: clamp_coord_spec(v.x as int) as i64,
        y: clamp_coord_spec(v.y as int) as i64,
        z: clamp_coord_spec(v.z as int) as i64,
    }
}

/// The output height: the width over the aspect ratio, floored to whole
/// pixels and kept at least one.
pub open spec fn image_height_spec(b: CameraBuilder) -> int {
    let width_fx = clamp_coord_spec(b.image_width * FX_ONE);
    let h_fx = crate::fixed::fx_div_spec(width_fx, b.aspect_ratio as int);
    let ih = if h_fx >= FX_ONE {
        let h64 = crate::fixed::flr(h_fx, FX_ONE as int);
        if h64 > 0xffff_ffff {
            0xffff_ffff
        } else {
            h64
        }
    } else {
        1
    };
    if ih < 1 {
        1
    } else {
        ih
    }
}

/// The per-pixel averaging factor: one over the number of samples.
pub open spec fn samples_scale_spec(aa: AntiAliasing) -> int {
    match aa {
        AntiAliasing::Grid(size) => crate::fixed::fx_div_spec(
            FX_ONE as int,
            (size * size) * FX_ONE,
        ),
        AntiAliasing::Random(number) => crate::fixed::fx_div_spec(
            FX_ONE as int,
            number * FX_ONE,
        ),
    }
}

/// The camera `build` constructs, field for field: the viewport spans
/// the field of view at the focus distance, pixel deltas step across it,
/// and the derived vectors are clamped into the scene coordinate bound.
pub open spec fn build_spec(b: CameraBuilder) -> Camera {
    let image_height = image_height_spec(b);
    let width_fx = clamp_coord_spec(b.image_width * FX_ONE);
    let theta = crate::utils::deg_to_rad_spec(b.vfov as int);
    let h = crate::utils::tan_fx_spec(crate::fixed::fx_div_spec(theta, 2 * FX_ONE));
    let viewport_height = crate::fixed::fx_mul_spec(
        crate::fixed::fx_mul_spec(2 * FX_ONE, h),
        b.focus_dist as int,
    );
    let height_fx = clamp_coord_spec(image_height * FX_ONE);
    let viewport_width = crate::fixed::fx_mul_spec(
        viewport_height,
        crate::fixed::fx_div_spec(width_fx, height_fx),
    );
    let w = v3_unit(crate::vec3::v3_sub(b.look_from, b.look_at));
    let u = v3_unit(crate::vec3::v3_cross(b.v_up, w));
    let v = crate::vec3::v3_cross(w, u);
    let viewport_u = v3_scale(u, viewport_width);
    let viewport_v = v3_scale(crate::vec3::v3_neg(v), viewport_height);
    let pixel_delta_u = clamp_vec_spec(
        v3_scale(crate::vec3::v3_div(viewport_u, width_fx), FX_ONE as int),
    );
    let pixel_delta_v = clamp_vec_spec(
        v3_scale(crate::vec3::v3_div(viewport_v, height_fx), FX_ONE as int),
    );
    let viewport_upper_left = crate::vec3::v3_sub(
        crate::vec3::v3_sub(
            crate::vec3::v3_sub(b.look_from, v3_scale(w, b.focus_dist as int)),
            crate::vec3::v3_div(viewport_u, 2 * FX_ONE),
        ),
        crate::vec3::v3_div(viewport_v, 2 * FX_ONE),
    );
    let pixel00_loc = clamp_vec_spec(
        v3_add(
            viewport_upper_left,
            v3_scale(v3_add(pixel_delta_u, pixel_delta_v), FX_HALF as int),
        ),
    );
    let defocus_rad = crate::fixed::fx_mul_spec(
        b.focus_dist as int,
        crate::utils::tan_fx_spec(
            crate::utils::deg_to_rad_spec(
                crate::fixed::fx_div_spec(b.defocus_angle as int, 2 * FX_ONE),
            ),
        ),
    );
    Camera {
        image_width: b.image_width,
        anti_aliasing: b.anti_aliasing,
        max_depth: b.max_depth,
        defocus_angle: b.defocus_angle,
        image_height: image_height as u32,
        samples_scale: samples_scale_spec(b.anti_aliasing) as i64,
        centre: b.look_from,
        pixel00_loc,
        pixel_delta_u,
        pixel_delta_v,
        defocus_disc_u: clamp_vec_spec(v3_scale(u, defocus_rad)),
        defocus_disc_v: clamp_vec_spec(v3_scale(v, defocus_rad)),
    }
}

impl CameraBuilder {
    pub fn set_aspect_ratio(self, aspect_ratio: i64) -> (r: CameraBuilder)
        ensures
            r == (CameraBuilder { aspect_ratio, ..self }),
    {
        CameraBuilder { aspect_ratio, ..self }
    }

    pub fn set_image_width(self, image_width: u32) -> (r: CameraBuilder)
        ensures
            r == (CameraBuilder { image_width, ..self }),
    {
        CameraBuilder { image_width, ..self }
    }

    pub fn set_anti_aliasing(self, anti_aliasing: AntiAliasing) -> (r: CameraBuilder)
        ensures
            r == (CameraBuilder { anti_aliasing, ..self }),
    {
        CameraBuilder { anti_aliasing, ..self }
    }

    pub fn set_max_depth(self, max_depth: u32) -> (r: CameraBuilder)
        ensures
            r == (CameraBuilder { max_depth, ..self }),
    {
        CameraBuilder { max_depth, ..self }
    }

    pub fn set_vfov(self, vfov: u16) -> (r: CameraBuilder)
        ensures
            r == (CameraBuilder { vfov, ..self }),
    {
        CameraBuilder { vfov, ..self }
    }

    pub fn set_look_from(self, look_from: Vec3) -> (r: CameraBuilder)
        ensures
            r == (CameraBuilder { look_from, ..self }),
    {
        CameraBuilder { look_from, ..self }
    }

    pub fn set_look_at(self, look_at: Vec3) -> (r: CameraBuilder)
        ensures
            r == (CameraBuilder { look_at, ..self }),
    {
        CameraBuilder { look_at, ..self }
    }

    pub fn set_v_up(self, v_up: Vec3) -> (r: CameraBuilder)
        ensures
            r == (CameraBuilder { v_up, ..self }),
    {
        CameraBuilder { v_up, ..self }
    }

    pub fn set_defocus_angle(self, defocus_angle: i64) -> (r: CameraBuilder)
        ensures
            r == (CameraBuilder { defocus_angle, ..self }),
    {
        CameraBuilder { defocus_angle, ..self }
    }

    pub fn set_focus_dist(self, focus_dist: i64) -> (r: CameraBuilder)
        ensures
            r == (CameraBuilder { focus_dist, ..self }),
    {
        CameraBuilder { focus_dist, ..self }
    }

    /// Derive the viewport geometry: the eye sits at `look_from`, the
    /// viewport spans the field of view at the focus distance, and pixel
    /// deltas step across it.  Derived vectors are clamped into the scene
    /// coordinate bound so every camera ray's origin stays where the
    /// traversal's soundness argument covers it.
    #[verifier::spinoff_prover]
    #[verifier::rlimit(100)]
    pub fn build(self) -> (cam: Camera)
        requires
            -B_COORD <= self.look_from.x <= B_COORD,
            -B_COORD <= self.look_from.y <= B_COORD,
            -B_COORD <= self.look_from.z <= B_COORD,
        ensures
            cam == build_spec(self),
            camera_wf(cam),
            cam.image_width == self.image_width,
            cam.image_height >= 1,
            cam.max_depth == self.max_depth,
            cam.anti_aliasing == self.anti_aliasing,
            cam.centre == self.look_from,
            cam.image_height as int == image_height_spec(self),
            cam.samples_scale as int == samples_scale_spec(self.anti_aliasing),
    {
        let width_fx = clamp_coord((self.image_width as i64) * FX_ONE);
        let h_fx = fx_div(width_fx, self.aspect_ratio);
        let mut image_height: u32 = if h_fx >= FX_ONE {
            let h64 = (h_fx as u64) / (FX_ONE as u64);
            proof {
                assert(h64 as int == crate::fixed::flr(h_fx as int, FX_ONE as int));
            }
            if h64 > 0xffff_ffff {
                0xffff_ffff
            } else {
                h64 as u32
            }
        } else {
            1
        };
        if image_height < 1 {
            image_height = 1;
        }
        proof {
            assert(image_height as int == image_height_spec(self));
        }
        let samples_scale = match self.anti_aliasing {
            AntiAliasing::Grid(size) => {
                proof {
                    assert(0 <= (size as int) * (size as int) <= 0x1_0000_0000)
                        by (nonlinear_arith)
                        requires
                            0 <= size <= 0x1_0000,
                    ;
                }
                let s2 = (size as i64) * (size as i64);
                fx_div(FX_ONE, s2 * FX_ONE)
            },
            AntiAliasing::Random(number) => fx_div(FX_ONE, (number as i64) * FX_ONE),
        };
        let centre = self.look_from;
        let theta = deg_to_rad(self.vfov as i64);
        let h = tan_fx(fx_div(theta, 2 * FX_ONE));
        let viewport_height = fx_mul(fx_mul(2 * FX_ONE, h), self.focus_dist);
        let height_fx = clamp_coord((image_height as i64) * FX_ONE);
        let viewport_width = fx_mul(viewport_height, fx_div(width_fx, height_fx));
        let w = self.look_from.minus(self.look_at).unit();
        let u = cross(&self.v_up, &w).unit();
        let v = cross(&w, &u);
        let viewport_u = u.scale(viewport_width);
        let viewport_v = v.negate().scale(viewport_height);
        let pixel_delta_u = clamp_vec(viewport_u.divide(width_fx).scale(FX_ONE));
        let pixel_delta_v = clamp_vec(viewport_v.divide(height_fx).scale(FX_ONE));
        let viewport_upper_left = centre.minus(w.scale(self.focus_dist)).minus(
            viewport_u.divide(2 * FX_ONE),
        ).minus(viewport_v.divide(2 * FX_ONE));
        let pixel00_loc = clamp_vec(
            viewport_upper_left.plus(pixel_delta_u.plus(pixel_delta_v).scale(FX_HALF)),
        );
        let defocus_rad = fx_mul(self.focus_dist, tan_fx(deg_to_rad(fx_div(
            self.defocus_angle,
            2 * FX_ONE,
        ))));
        let defocus_disc_u = clamp_vec(u.scale(defocus_rad));
        let defocus_disc_v = clamp_vec(v.scale(defocus_rad));
        Camera {
            image_width: self.image_width,
            anti_aliasing: self.anti_aliasing,
            max_depth: self.max_depth,
            defocus_angle: self.defocus_angle,
            image_height,
            samples_scale,
            centre,
            pixel00_loc,
            pixel_delta_u,
            pixel_delta_v,
            defocus_disc_u,
            defocus_disc_v,
        }
    }
}

/// The camera: precomputed viewport geometry plus sampling parameters.
#[derive(Clone, Copy, Debug)]
pub struct Camera {
    /// How sub-pixel samples are drawn.
    pub anti_aliasing: AntiAliasing,
    /// The width of the output image in pixels.
    pub image_width: u32,
    pub image_height: u32,
    pub samples_scale: i64,
    pub max_depth: u32,
    pub centre: Vec3,
    pub pixel00_loc: Vec3,
    pub pixel_delta_u: Vec3,
    pub pixel_delta_v: Vec3,
    pub defocus_angle: i64,
    pub defocus_disc_u: Vec3,
    pub defocus_disc_v: Vec3,
}

/// The camera's eye and defocus disc stay within the scene coordinate
/// bound, so every ray it emits has a covered origin.
pub open spec fn camera_wf(c: Camera) -> bool {
    &&& -B_COORD <= c.centre.x <= B_COORD && -B_COORD <= c.centre.y <= B_COORD && -B_COORD
        <= c.centre.z <= B_COORD
    &&& -B_COORD <= c.defocus_disc_u.x <= B_COORD && -B_COORD <= c.defocus_disc_u.y <= B_COORD
        && -B_COORD <= c.defocus_disc_u.z <= B_COORD
    &&& -B_COORD <= c.defocus_disc_v.x <= B_COORD && -B_COORD <= c.defocus_disc_v.y <= B_COORD
        && -B_COORD <= c.defocus_disc_v.z <= B_COORD
    &&& c.image_height >= 1
}

/// Clamp a raw value into the scene coordinate bound.
fn clamp_coord(v: i64) -> (r: i64)
    ensures
        r as int == clamp_coord_spec(v as int),
        -B_COORD <= r <= B_COORD,
{
    fx_max(-B_COORD, fx_min(B_COORD, v))
}

/// Clamp every component into the scene coordinate bound.
fn clamp_vec(v: Vec3) -> (r: Vec3)
    ensures
        r == clamp_vec_spec(v),
        -B_COORD <= r.x <= B_COORD && -B_COORD <= r.y <= B_COORD && -B_COORD <= r.z <= B_COORD,
{
    Vec3 { x: clamp_coord(v.x), y: clamp_coord(v.y), z: clamp_coord(v.z) }
}

/// The sky: a vertical gradient from white at the horizon to a pale blue
/// aloft, judged by the ray direction's vertical component.
pub open spec fn sky_spec(r: Ray) -> Vec3 {
    let unit_dir = v3_unit(r.direction);
    let a_raw = crate::fixed::fx_mul_spec(
        crate::fixed::fx_add_spec(unit_dir.y as int, FX_ONE as int),
        FX_HALF as int,
    );
    let a = if a_raw < 0 {
        0
    } else if a_raw > FX_ONE {
        FX_ONE as int
    } else {
        a_raw
    };
    v3_add(
        v3_scale(Vec3 { x: FX_ONE, y: FX_ONE, z: FX_ONE }, FX_ONE - a),
        v3_scale(Vec3 { x: FX_HALF, y: 45875, z: FX_ONE }, a),
    )
}

/// The deterministic grid offset for the given sample index:
/// `(0.5 - (sample % size) / (size - 1), 0.5 - (sample / size) / (size - 1))`,
/// clamped into the unit square; a zero grid side yields no offset.
pub open spec fn grid_offset_spec(size: u16, sample: u16) -> Vec3 {
    if size == 0 {
        Vec3 { x: 0, y: 0, z: 0 }
    } else {
        let denom = (size - 1) * FX_ONE;
        Vec3 {
            x: clamp_unit_spec(
                crate::fixed::fx_sub_spec(
                    FX_HALF as int,
                    crate::fixed::fx_div_spec((sample as int % size as int) * FX_ONE, denom),
                ),
            ) as i64,
            y: clamp_unit_spec(
                crate::fixed::fx_sub_spec(
                    FX_HALF as int,
                    crate::fixed::fx_div_spec((sample as int / size as int) * FX_ONE, denom),
                ),
            ) as i64,
            z: 0,
        }
    }
}

/// A uniformly random sub-pixel offset: both components are draws from
/// `[0, 1]` shifted to be centred on zero.
pub open spec fn random_offset(dx: int, dy: int) -> Vec3 {
    Vec3 { x: (dx - FX_HALF) as i64, y: (dy - FX_HALF) as i64, z: 0 }
}

/// What a sub-pixel sample offset may be: the deterministic grid formula,
/// or a centred random draw.
pub open spec fn offset_shape(c: Camera, sample: u16, o: Vec3) -> bool {
    match c.anti_aliasing {
        AntiAliasing::Grid(size) => o == grid_offset_spec(size, sample),
        AntiAliasing::Random(_) => exists|dx: int, dy: int|
            0 <= dx <= FX_ONE && 0 <= dy <= FX_ONE && o == #[trigger] random_offset(dx, dy),
    }
}

/// What a camera ray's origin may be: the eye itself, or — with a
/// positive defocus angle — a point of the defocus disc.
pub open spec fn origin_shape(c: Camera, org: Vec3) -> bool {
    if c.defocus_angle <= 0 {
        org == c.centre
    } else {
        exists|p: Vec3|
            {
                &&& -FX_ONE <= p.x <= FX_ONE
                &&& -FX_ONE <= p.y <= FX_ONE
                &&& p.z == 0
                &&& crate::vec3::v3_len_sq(p) < FX_ONE
                &&& org == v3_add(
                    v3_add(c.centre, #[trigger] v3_scale(c.defocus_disc_u, p.x as int)),
                    v3_scale(c.defocus_disc_v, p.y as int),
                )
            }
    }
}

/// The viewport point a sample aims at: the top-left pixel centre plus
/// the jittered pixel deltas.
pub open spec fn pixel_sample_spec(c: Camera, i: u32, j: u32, off: Vec3) -> Vec3 {
    v3_add(
        v3_add(
            c.pixel00_loc,
            v3_scale(c.pixel_delta_u, crate::fixed::fx_add_spec(i * FX_ONE, off.x as int)),
        ),
        v3_scale(c.pixel_delta_v, crate::fixed::fx_add_spec(j * FX_ONE, off.y as int)),
    )
}

/// What a radiance estimate may evaluate to, whatever the random draws:
/// black once the bounce budget is exhausted; the sky gradient on a
/// miss; on a hit, the yielded material's albedo times a possible
/// radiance of a bounce ray — one starting at the hit point in a
/// direction the material's scattering rule can produce — one level
/// deeper.
#[verifier::opaque]
pub open spec fn radiance_shape(world: Object, r: Ray, depth: int, c: Vec3) -> bool
    decreases depth,
{
    if depth <= 0 {
        c == (Vec3 { x: 0, y: 0, z: 0 })
    } else if obj_hit_spec(world, r, Interval { min: T_MIN_EPS, max: FX_MAX }) is None {
        c == sky_spec(r)
    } else {
        exists|rec: HitRecord, dir: Vec3, inner: Vec3|
            #![trigger crate::material::scatter_dir_shape(rec.mat, r, rec, dir), v3_mul(mat_albedo(rec.mat), inner)]
            {
                &&& obj_yields(world, r, Interval { min: T_MIN_EPS, max: FX_MAX }, rec)
                &&& crate::material::scatter_dir_shape(rec.mat, r, rec, dir)
                &&& radiance_shape(world, crate::material::bounce(rec.p, dir), depth - 1, inner)
                &&& c == v3_mul(mat_albedo(rec.mat), inner)
            }
    }
}

/// Introduction rule for the hit case of `radiance_shape`: a yielded
/// record, a direction its material can scatter into, and a possible
/// radiance of the bounce make the attenuated product a possible
/// radiance one level up.
proof fn lemma_radiance_hit(
    world: Object,
    r: Ray,
    depth: int,
    rec: HitRecord,
    sdir: Vec3,
    inner: Vec3,
    out: Vec3,
)
    requires
        depth > 0,
        obj_hit_spec(world, r, Interval { min: T_MIN_EPS, max: FX_MAX }) is Some,
        obj_yields(world, r, Interval { min: T_MIN_EPS, max: FX_MAX }, rec),
        crate::material::scatter_dir_shape(rec.mat, r, rec, sdir),
        radiance_shape(world, crate::material::bounce(rec.p, sdir), depth - 1, inner),
        out == v3_mul(mat_albedo(rec.mat), inner),
    ensures
        radiance_shape(world, r, depth, out),
{
    reveal(radiance_shape);
    assert(obj_yields(world, r, Interval { min: T_MIN_EPS, max: FX_MAX }, rec)
        && crate::material::scatter_dir_shape(rec.mat, r, rec, sdir) && radiance_shape(
        world,
        crate::material::bounce(rec.p, sdir),
        depth - 1,
        inner,
    ) && out == v3_mul(mat_albedo(rec.mat), inner));
}

/// Introduction rule for the exhausted-budget case of `radiance_shape`.
proof fn lemma_radiance_black(world: Object, r: Ray, depth: int)
    requires
        depth <= 0,
    ensures
        radiance_shape(world, r, depth, Vec3 { x: 0, y: 0, z: 0 }),
{
    reveal(radiance_shape);
}

/// Introduction rule for the miss case of `radiance_shape`.
proof fn lemma_radiance_miss(world: Object, r: Ray, depth: int)
    requires
        depth > 0,
        obj_hit_spec(world, r, Interval { min: T_MIN_EPS, max: FX_MAX }) is None,
    ensures
        radiance_shape(world, r, depth, sky_spec(r)),
{
    reveal(radiance_shape);
}

/// How many samples each pixel averages: the squared grid side (capped
/// at the sample counter's width) for grid anti-aliasing, the requested
/// number otherwise.
pub open spec fn sample_count_spec(aa: AntiAliasing) -> int {
    match aa {
        AntiAliasing::Grid(size) => if size * size > 0xffff {
            0xffff
        } else {
            (size * size) as int
        },
        AntiAliasing::Random(number) => number as int,
    }
}

/// The saturating componentwise sum of a sequence of colours.
pub open spec fn colour_sum(s: Seq<Vec3>) -> Vec3
    decreases s.len(),
{
    if s.len() == 0 {
        Vec3 { x: 0, y: 0, z: 0 }
    } else {
        v3_add(colour_sum(s.drop_last()), s.last())
    }
}

/// Every channel of the colour lies in `[0, 1]`.
pub open spec fn channels_wf(c: Vec3) -> bool {
    channel_wf(c.x as int) && channel_wf(c.y as int) && channel_wf(c.z as int)
}

/// What a rendered pixel is: the gamma-corrected bytes of the average of
/// the camera's per-pixel sample count of radiance estimates, each with
/// every channel in `[0, 1]`.
pub open spec fn pixel_shape(cam: Camera, px: [u8; 3]) -> bool {
    exists|samples: Seq<Vec3>|
        #![trigger colour_sum(samples)]
        {
            &&& samples.len() == sample_count_spec(cam.anti_aliasing)
            &&& (forall|k: int| 0 <= k < samples.len() ==> channels_wf(#[trigger] samples[k]))
            &&& px@.len() == 3
            &&& px@[0] as int == crate::vec3::to_byte_spec(
                v3_scale(colour_sum(samples), cam.samples_scale as int).x as int,
            )
            &&& px@[1] as int == crate::vec3::to_byte_spec(
                v3_scale(colour_sum(samples), cam.samples_scale as int).y as int,
            )
            &&& px@[2] as int == crate::vec3::to_byte_spec(
                v3_scale(colour_sum(samples), cam.samples_scale as int).z as int,
            )
        }
}

impl Camera {
    /// The height of the output image in pixels.
    pub fn height(&self) -> (r: u32)
        ensures
            r == self.image_height,
    {
        self.image_height
    }

    /// Check that the camera's eye and defocus disc lie within the scene
    /// coordinate bound.
    pub fn is_wf(&self) -> (r: bool)
        ensures
            r == camera_wf(*self),
    {
        in_coord_range(&self.centre) && in_coord_range(&self.defocus_disc_u) && in_coord_range(
            &self.defocus_disc_v,
        ) && self.image_height >= 1
    }

    /// Estimate the radiance arriving along a ray: black once the bounce
    /// budget is exhausted; otherwise the nearest surface's scattered
    /// radiance attenuated by its albedo, or the sky gradient when the
    /// ray escapes the scene.  Every colour channel stays within `[0, 1]`.
    #[verifier::spinoff_prover]
    #[verifier::rlimit(100)]
    pub fn ray_colour(r: &Ray, depth: u32, world: &Object, rng: &mut RandSrc) -> (c: Vec3)
        requires
            obj_wf(*world),
            ray_wf(*r),
        ensures
            channel_wf(c.x as int) && channel_wf(c.y as int) && channel_wf(c.z as int),
            depth == 0 ==> c == (Vec3 { x: 0, y: 0, z: 0 }),
            depth > 0 && obj_hit_spec(
                *world,
                *r,
                Interval { min: T_MIN_EPS, max: FX_MAX },
            ) is None ==> c == sky_spec(*r),
            radiance_shape(*world, *r, depth as int, c),
            depth > 0 && obj_hit_spec(
                *world,
                *r,
                Interval { min: T_MIN_EPS, max: FX_MAX },
            ) is Some ==> exists|rec: HitRecord|
                #[trigger] obj_yields(
                    *world,
                    *r,
                    Interval { min: T_MIN_EPS, max: FX_MAX },
                    rec,
                ) && exists|inner: Vec3|
                    channel_wf(inner.x as int) && channel_wf(inner.y as int) && channel_wf(
                        inner.z as int,
                    ) && c == #[trigger] v3_mul(mat_albedo(rec.mat), inner),
        decreases depth,
    {
        if depth == 0 {
            proof {
                lemma_radiance_black(*world, *r, 0);
            }
            return Vec3 { x: 0, y: 0, z: 0 };
        }
        let hit = world.hit(r, Interval { min: T_MIN_EPS, max: FX_MAX });
        match hit {
            Some(rec) => {
                proof {
                    crate::hit::lemma_obj_yields_point(*world, *r, Interval {
                        min: T_MIN_EPS,
                        max: FX_MAX,
                    }, rec);
                    crate::hit::lemma_obj_bound_bounded(*world);
                }
                match rec.mat.scatter(r, &rec, rng) {
                    Some(sc) => {
                        let (scattered, attenuation) = sc;
                        let inner = Self::ray_colour(&scattered, depth - 1, world, rng);
                        proof {
                            lemma_fx_mul_unit(attenuation.x as int, inner.x as int);
                            lemma_fx_mul_unit(attenuation.y as int, inner.y as int);
                            lemma_fx_mul_unit(attenuation.z as int, inner.z as int);
                        }
                        let out = attenuation.times(inner);
                        proof {
                            assert(attenuation == mat_albedo(rec.mat));
                            assert(obj_yields(
                                *world,
                                *r,
                                Interval { min: T_MIN_EPS, max: FX_MAX },
                                rec,
                            ));
                            assert(channel_wf(inner.x as int) && channel_wf(inner.y as int)
                                && channel_wf(inner.z as int) && out == v3_mul(
                                mat_albedo(rec.mat),
                                inner,
                            ));
                            assert(scattered == crate::material::bounce(
                                rec.p,
                                scattered.direction,
                            ));
                            lemma_radiance_hit(
                                *world,
                                *r,
                                depth as int,
                                rec,
                                scattered.direction,
                                inner,
                                out,
                            );
                        }
                        out
                    },
                    None => Vec3 { x: 0, y: 0, z: 0 },
                }
            },
            None => {
                let unit_dir = r.direction.unit();
                let a_raw = fx_mul(fx_add(unit_dir.y, FX_ONE), FX_HALF);
                let a = if a_raw < 0 {
                    0
                } else if a_raw > FX_ONE {
                    FX_ONE
                } else {
                    a_raw
                };
                let white = Vec3 { x: FX_ONE, y: FX_ONE, z: FX_ONE };
                let blue = Vec3 { x: FX_HALF, y: 45875, z: FX_ONE };
                proof {
                    lemma_fx_mul_unit(FX_ONE as int, FX_ONE - a as int);
                    lemma_fx_mul_unit(FX_HALF as int, a as int);
                    lemma_fx_mul_unit(45875, a as int);
                    lemma_fx_mul_unit(FX_ONE as int, a as int);
                }
                let sky = white.scale(FX_ONE - a).plus(blue.scale(a));
                proof {
                    lemma_radiance_miss(*world, *r, depth as int);
                }
                sky
            },
        }
    }

    /// One sub-pixel sample offset: deterministic for grid anti-aliasing,
    /// uniformly random otherwise.
    fn sample_offset(&self, sample: u16, rng: &mut RandSrc) -> (o: Vec3)
        ensures
            offset_shape(*self, sample, o),
            -FX_ONE <= o.x <= FX_ONE && -FX_ONE <= o.y <= FX_ONE,
    {
        match self.anti_aliasing {
            AntiAliasing::Grid(size) => {
                if size == 0 {
                    return Vec3 { x: 0, y: 0, z: 0 };
                }
                let gx = (sample % size) as i64 * FX_ONE;
                let gy = (sample / size) as i64 * FX_ONE;
                let denom = (size as i64 - 1) * FX_ONE;
                let ox = fx_sub(FX_HALF, fx_div(gx, denom));
                let oy = fx_sub(FX_HALF, fx_div(gy, denom));
                Vec3 { x: clamp_unit(ox), y: clamp_unit(oy), z: 0 }
            },
            AntiAliasing::Random(_) => {
                let dx = rng.next_closed_unit();
                let dy = rng.next_closed_unit();
                let o = Vec3 { x: dx - FX_HALF, y: dy - FX_HALF, z: 0 };
                proof {
                    assert(o == random_offset(dx as int, dy as int));
                }
                o
            },
        }
    }

    /// The camera ray for pixel `(i, j)` and the given sample: jittered
    /// through the pixel, originating at the eye or, with a positive
    /// defocus angle, at a random point of the defocus disc.
    fn get_ray(&self, i: u32, j: u32, sample: u16, rng: &mut RandSrc) -> (r: Ray)
        requires
            camera_wf(*self),
        ensures
            ray_wf(r),
            origin_shape(*self, r.origin),
            exists|off: Vec3|
                #[trigger] offset_shape(*self, sample, off) && r.direction == crate::vec3::v3_sub(
                    pixel_sample_spec(*self, i, j, off),
                    r.origin,
                ),
    {
        let offset = self.sample_offset(sample, rng);
        let ix = fx_add((i as i64) * FX_ONE, offset.x);
        let jy = fx_add((j as i64) * FX_ONE, offset.y);
        let pixel_sample = self.pixel00_loc.plus(self.pixel_delta_u.scale(ix)).plus(
            self.pixel_delta_v.scale(jy),
        );
        let ray_origin = if self.defocus_angle <= 0 {
            self.centre
        } else {
            let p = Vec3::random_in_unit_disc(rng);
            proof {
                lemma_fx_mul_contract(self.defocus_disc_u.x as int, p.x as int);
                lemma_fx_mul_contract(self.defocus_disc_u.y as int, p.x as int);
                lemma_fx_mul_contract(self.defocus_disc_u.z as int, p.x as int);
                lemma_fx_mul_contract(self.defocus_disc_v.x as int, p.y as int);
                lemma_fx_mul_contract(self.defocus_disc_v.y as int, p.y as int);
                lemma_fx_mul_contract(self.defocus_disc_v.z as int, p.y as int);
            }
            let org = self.centre.plus(self.defocus_disc_u.scale(p.x)).plus(
                self.defocus_disc_v.scale(p.y),
            );
            proof {
                assert(org == v3_add(
                    v3_add(self.centre, v3_scale(self.defocus_disc_u, p.x as int)),
                    v3_scale(self.defocus_disc_v, p.y as int),
                ));
            }
            org
        };
        let ray_direction = pixel_sample.minus(ray_origin);
        proof {
            assert(offset_shape(*self, sample, offset) && ray_direction == crate::vec3::v3_sub(
                pixel_sample_spec(*self, i, j, offset),
                ray_origin,
            ));
        }
        Ray { origin: ray_origin, direction: ray_direction }
    }

    /// Render one row of the image: every pixel averages its samples'
    /// radiance estimates, gamma-corrected into 8-bit RGB.
    pub fn render_row(&self, world: &Object, j: u32, rng: &mut RandSrc) -> (row: Vec<[u8; 3]>)
        requires
            camera_wf(*self),
            obj_wf(*world),
        ensures
            row@.len() == self.image_width,
            forall|i: int| 0 <= i < row@.len() ==> pixel_shape(*self, #[trigger] row@[i]),
    {
        let samples: u16 = match self.anti_aliasing {
            AntiAliasing::Grid(size) => {
                proof {
                    assert(0 <= (size as int) * (size as int) < 0x1_0000_0000)
                        by (nonlinear_arith)
                        requires
                            0 <= size < 0x1_0000,
                    ;
                }
                let sq: u32 = size as u32 * size as u32;
                if sq > 0xffff {
                    0xffff
                } else {
                    sq as u16
                }
            },
            AntiAliasing::Random(number) => number,
        };
        proof {
            assert(samples as int == sample_count_spec(self.anti_aliasing));
        }
        let mut row: Vec<[u8; 3]> = Vec::new();
        let mut i: u32 = 0;
        while i < self.image_width
            invariant
                row@.len() == i,
                i <= self.image_width,
                camera_wf(*self),
                obj_wf(*world),
                samples as int == sample_count_spec(self.anti_aliasing),
                forall|p: int| 0 <= p < row@.len() ==> pixel_shape(*self, #[trigger] row@[p]),
            decreases self.image_width - i,
        {
            let mut pixel_colour = Vec3 { x: 0, y: 0, z: 0 };
            let ghost mut sampled: Seq<Vec3> = Seq::empty();
            let mut sample: u16 = 0;
            while sample < samples
                invariant
                    sample <= samples,
                    camera_wf(*self),
                    obj_wf(*world),
                    sampled.len() == sample,
                    forall|k: int| 0 <= k < sampled.len() ==> channels_wf(#[trigger] sampled[k]),
                    pixel_colour == colour_sum(sampled),
                decreases samples - sample,
            {
                let r = self.get_ray(i, j, sample, rng);
                let c = Self::ray_colour(&r, self.max_depth, world, rng);
                pixel_colour = pixel_colour.plus(c);
                proof {
                    assert(sampled.push(c).drop_last() =~= sampled);
                    sampled = sampled.push(c);
                }
                sample = sample + 1;
            }
            let px = pixel_colour.scale(self.samples_scale).to_rgb();
            proof {
                assert(sampled.len() == sample_count_spec(self.anti_aliasing) && (forall|k: int|
                    0 <= k < sampled.len() ==> channels_wf(#[trigger] sampled[k])) && px@.len()
                    == 3 && px@[0] as int == crate::vec3::to_byte_spec(
                    v3_scale(colour_sum(sampled), self.samples_scale as int).x as int,
                ) && px@[1] as int == crate::vec3::to_byte_spec(
                    v3_scale(colour_sum(sampled), self.samples_scale as int).y as int,
                ) && px@[2] as int == crate::vec3::to_byte_spec(
                    v3_scale(colour_sum(sampled), self.samples_scale as int).z as int,
                ));
                assert(pixel_shape(*self, px));
            }
            row.push(px);
            i = i + 1;
        }
        row
    }

    /// Render the whole image row by row into a flat, row-major grid of
    /// gamma-corrected 8-bit pixels, fully populated before it is handed
    /// to any image sink.
    pub fn render(&self, world: &Object, rng: &mut RandSrc) -> (img: Vec<[u8; 3]>)
        requires
            camera_wf(*self),
            obj_wf(*world),
            (self.image_width as int) * (self.image_height as int) <= 0x7fff_ffff,
        ensures
            img@.len() == (self.image_width as int) * (self.image_height as int),
            forall|p: int| 0 <= p < img@.len() ==> pixel_shape(*self, #[trigger] img@[p]),
    {
        let mut img: Vec<[u8; 3]> = Vec::new();
        let mut j: u32 = 0;
        while j < self.image_height
            invariant
                img@.len() == (j as int) * (self.image_width as int),
                j <= self.image_height,
                camera_wf(*self),
                obj_wf(*world),
                (self.image_width as int) * (self.image_height as int) <= 0x7fff_ffff,
                forall|p: int| 0 <= p < img@.len() ==> pixel_shape(*self, #[trigger] img@[p]),
            decreases self.image_height - j,
        {
            proof {
                assert((j as int + 1) * (self.image_width as int) == (j as int)
                    * (self.image_width as int) + self.image_width) by (nonlinear_arith);
                assert((j as int + 1) * (self.image_width as int) <= (self.image_height as int)
                    * (self.image_width as int)) by (nonlinear_arith)
                    requires
                        j as int + 1 <= self.image_height as int,
                        self.image_width >= 0,
                ;
                assert((self.image_height as int) * (self.image_width as int) == (
                self.image_width as int) * (self.image_height as int)) by (nonlinear_arith);
            }
            let mut row = self.render_row(world, j, rng);
            img.append(&mut row);
            j = j + 1;
        }
        proof {
            assert((self.image_height as int) * (self.image_width as int) == (
            self.image_width as int) * (self.image_height as int)) by (nonlinear_arith);
        }
        img
    }
}

/// One vector of `Camera::is_wf`.
fn in_coord_range(v: &Vec3) -> (r: bool)
    ensures
        r == (-B_COORD <= v.x <= B_COORD && -B_COORD <= v.y <= B_COORD && -B_COORD <= v.z
            <= B_COORD),
{
    -B_COORD <= v.x && v.x <= B_COORD && -B_COORD <= v.y && v.y <= B_COORD && -B_COORD <= v.z
        && v.z <= B_COORD
}

/// The spec mirror of `clamp_unit`.
pub open spec fn clamp_unit_spec(v: int) -> int {
    let m = if FX_ONE <= v {
        FX_ONE as int
    } else {
        v
    };
    if -FX_ONE >= m {
        -(FX_ONE as int)
    } else {
        m
    }
}

/// Clamp a raw value into `[-1, 1]`.
fn clamp_unit(v: i64) -> (r: i64)
    ensures
        r as int == clamp_unit_spec(v as int),
        -FX_ONE <= r <= FX_ONE,
{
    fx_max(-FX_ONE, fx_min(FX_ONE, v))
}

} // verus!
