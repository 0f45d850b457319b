//! Materials: Lambertian diffuse, metal and dielectric, as a closed tagged
//! union.  Scattering itself lives here too (see `scatter`), driven by the
//! random samples drawn from [`crate::rng`].

use vstd::prelude::*;

verus! {

use crate::fixed::FX_ONE;
use crate::fixed::fx_add;
use crate::fixed::fx_add_spec;
use crate::fixed::fx_div;
use crate::fixed::fx_div_spec;
use crate::fixed::fx_mul;
use crate::fixed::fx_mul_spec;
use crate::fixed::fx_sqrt;
use crate::fixed::fx_sub;
use crate::fixed::fx_sub_spec;
use crate::hit::HitRecord;
use crate::ray::Ray;
use crate::rng::RandSrc;
use crate::fixed::fx_sqrt_spec;
use crate::vec3::Vec3;
use crate::vec3::dot;
use crate::vec3::unit_sphere_sample;
use crate::vec3::v3_add;
use crate::vec3::v3_dot;
use crate::vec3::v3_near_zero;
use crate::vec3::v3_neg;
use crate::vec3::v3_reflect;
use crate::vec3::v3_refract;
use crate::vec3::v3_scale;
use crate::vec3::v3_unit;

/// A Lambertian diffuse material with true Lambertian reflectance.
#[derive(Clone, Copy, Debug, PartialEq, Eq, Structural)]
pub struct Lambertian {
    /// The fraction of each colour channel reflected from the surface.
    pub albedo: Vec3,
}

/// A metallic material: perfect mirror reflectance when `fuzz` is zero.
#[derive(Clone, Copy, Debug, PartialEq, Eq, Structural)]
pub struct Metal {
    /// The fraction of each colour channel reflected from the surface.
    pub albedo: Vec3,
    /// How far the reflected ray is perturbed; must lie in `[0, 1]`.
    pub fuzz: i64,
}

/// A dielectric material refracting by Snell's law, with the Schlick
/// approximation for reflectance.
#[derive(Clone, Copy, Debug, PartialEq, Eq, Structural)]
pub struct Dielectric {
    /// The refractive index of the material relative to the enclosing medium.
    pub refraction_index: i64,
}

/// The closed union of the three material kinds.  Materials are small
/// copyable values shared by every primitive that uses them.
#[derive(Clone, Copy, Debug, PartialEq, Eq, Structural)]
pub enum Material {
    Lambertian(Lambertian),
    Metal(Metal),
    Dielectric(Dielectric),
}

/// A colour channel value within `[0, 1]`.
pub open spec fn channel_wf(c: int) -> bool {
    0 <= c <= FX_ONE
}

/// An albedo reflects at most all of each channel.
pub open spec fn albedo_wf(a: Vec3) -> bool {
    channel_wf(a.x as int) && channel_wf(a.y as int) && channel_wf(a.z as int)
}

/// A material is well formed when its parameters are physical: albedo
/// channels in `[0, 1]`, fuzz in `[0, 1]`, a nonnegative refractive index.
pub open spec fn mat_wf(m: Material) -> bool {
    match m {
        Material::Lambertian(l) => albedo_wf(l.albedo),
        Material::Metal(mt) => albedo_wf(mt.albedo) && 0 <= mt.fuzz <= FX_ONE,
        Material::Dielectric(d) => d.refraction_index >= 0,
    }
}

/// Pure white: the attenuation of a non-absorbing dielectric.
pub open spec fn white_spec() -> Vec3 {
    Vec3 { x: FX_ONE, y: FX_ONE, z: FX_ONE }
}

/// The attenuation a material applies to scattered light: its albedo,
/// pure white for a dielectric.
pub open spec fn mat_albedo(m: Material) -> Vec3 {
    match m {
        Material::Lambertian(l) => l.albedo,
        Material::Metal(mt) => mt.albedo,
        Material::Dielectric(_) => white_spec(),
    }
}

/// The effective refractive-index ratio at a hit: the reciprocal of the
/// material's index on a front face (entering), the index itself on a
/// back face (leaving).
pub open spec fn dielectric_ratio(d: Dielectric, front_face: bool) -> int {
    if front_face {
        fx_div_spec(FX_ONE as int, d.refraction_index as int)
    } else {
        d.refraction_index as int
    }
}

/// The cosine of the angle of incidence for a unit direction, capped at
/// one.
pub open spec fn incidence_cos(unit_dir: Vec3, norm: Vec3) -> int {
    let c = v3_dot(v3_neg(unit_dir), norm);
    if c <= FX_ONE {
        c
    } else {
        FX_ONE as int
    }
}

/// The sine of the angle of incidence, from the cosine.
pub open spec fn incidence_sin(unit_dir: Vec3, norm: Vec3) -> int {
    let c = incidence_cos(unit_dir, norm);
    fx_sqrt_spec(fx_sub_spec(FX_ONE as int, fx_mul_spec(c, c)))
}

/// Whether the dielectric reflects: forced under total internal
/// reflection, and otherwise exactly when the Schlick reflectance beats
/// the uniform draw.
pub open spec fn reflect_choice(cannot_refract: bool, reflectance: int, xi: int) -> bool {
    cannot_refract || reflectance > xi
}

/// A uniform sample from the closed unit interval, as `next_closed_unit`
/// draws it.
pub open spec fn uniform_draw(xi: int) -> bool {
    0 <= xi <= FX_ONE
}

/// The direction a dielectric scatters into, given the geometry and the
/// uniform draw `xi`: the mirror reflection when `reflect_choice` says
/// so, the Snell refraction otherwise.
pub open spec fn dielectric_direction(
    ud: Vec3,
    norm: Vec3,
    ratio: int,
    cannot_refract: bool,
    reflectance: int,
    xi: int,
) -> Vec3 {
    if reflect_choice(cannot_refract, reflectance, xi) {
        v3_reflect(ud, norm)
    } else {
        v3_refract(ud, norm, ratio)
    }
}

/// The spec of a bounce ray: it starts at the hit point and heads in
/// the scattered direction.
pub open spec fn bounce(p: Vec3, dir: Vec3) -> Ray {
    Ray { origin: p, direction: dir }
}

/// What a scattered direction may be, per material kind: exactly the
/// direction clauses the three scatter functions ensure.
pub open spec fn scatter_dir_shape(m: Material, r_in: Ray, rec: HitRecord, dir: Vec3) -> bool {
    match m {
        Material::Lambertian(_) => exists|u: Vec3|
            #[trigger] unit_sphere_sample(u) && dir == (if v3_near_zero(v3_add(rec.norm, u)) {
                rec.norm
            } else {
                v3_add(rec.norm, u)
            }),
        Material::Metal(mt) => exists|u: Vec3|
            #[trigger] unit_sphere_sample(u) && dir == v3_add(
                v3_unit(v3_reflect(r_in.direction, rec.norm)),
                v3_scale(u, mt.fuzz as int),
            ),
        Material::Dielectric(d) => {
            let ratio = dielectric_ratio(d, rec.front_face);
            let ud = v3_unit(r_in.direction);
            exists|xi: int|
                #[trigger] uniform_draw(xi) && dir == dielectric_direction(
                    ud,
                    rec.norm,
                    ratio,
                    (fx_mul_spec(ratio, incidence_sin(ud, rec.norm)) > FX_ONE),
                    schlick_spec(incidence_cos(ud, rec.norm), ratio),
                    xi,
                )
        },
    }
}

/// The Schlick reflectance approximation:
/// `r0 + (1 - r0) * (1 - cos)^5` with `r0 = ((1 - ri) / (1 + ri))^2`.
pub open spec fn schlick_spec(cosine: int, refraction_index: int) -> int {
    let r0a = fx_div_spec(
        fx_sub_spec(FX_ONE as int, refraction_index),
        fx_add_spec(FX_ONE as int, refraction_index),
    );
    let r0 = fx_mul_spec(r0a, r0a);
    let omc = fx_sub_spec(FX_ONE as int, cosine);
    let omc2 = fx_mul_spec(omc, omc);
    let omc4 = fx_mul_spec(omc2, omc2);
    let omc5 = fx_mul_spec(omc4, omc);
    fx_add_spec(r0, fx_mul_spec(fx_sub_spec(FX_ONE as int, r0), omc5))
}

impl Material {
    /// Scatter an incident ray at a hit according to the material's rule:
    /// the scattered ray always starts at the hit point, and the
    /// attenuation is the material's albedo (pure white for a dielectric),
    /// every channel within `[0, 1]`.  None of the three materials ever
    /// absorbs outright, so scattering always succeeds.
    pub fn scatter(&self, r_in: &Ray, rec: &HitRecord, rng: &mut RandSrc) -> (res: Option<
        (Ray, Vec3),
    >)
        requires
            mat_wf(*self),
        ensures
            res.is_some(),
            match res {
                Some(rv) => rv.0.origin == rec.p && albedo_wf(rv.1) && rv.1 == mat_albedo(*self)
                    && scatter_dir_shape(*self, *r_in, *rec, rv.0.direction),
                None => true,
            },
    {
        match self {
            Material::Lambertian(l) => l.scatter(rec, rng),
            Material::Metal(m) => m.scatter(r_in, rec, rng),
            Material::Dielectric(d) => d.scatter(r_in, rec, rng),
        }
    }
}

impl Material {
    /// Check that the material's parameters are physical.
    pub fn is_wf(&self) -> (r: bool)
        ensures
            r == mat_wf(*self),
    {
        match self {
            Material::Lambertian(l) => albedo_wf_exec(&l.albedo),
            Material::Metal(m) => albedo_wf_exec(&m.albedo) && 0 <= m.fuzz && m.fuzz <= FX_ONE,
            Material::Dielectric(d) => d.refraction_index >= 0,
        }
    }
}

/// Check that every channel of an albedo lies in `[0, 1]`.
fn albedo_wf_exec(a: &Vec3) -> (r: bool)
    ensures
        r == albedo_wf(*a),
{
    0 <= a.x && a.x <= FX_ONE && 0 <= a.y && a.y <= FX_ONE && 0 <= a.z && a.z <= FX_ONE
}

impl Lambertian {
    /// Scatter with true Lambertian reflectance: the new direction is the
    /// surface normal plus a random unit vector, falling back to the bare
    /// normal when that sum degenerates to (nearly) zero.
    pub fn scatter(&self, rec: &HitRecord, rng: &mut RandSrc) -> (res: Option<(Ray, Vec3)>)
        requires
            albedo_wf(self.albedo),
        ensures
            res.is_some(),
            match res {
                Some(rv) => rv.0.origin == rec.p && rv.1 == self.albedo && exists|u: Vec3|
                    #[trigger] unit_sphere_sample(u) && rv.0.direction == (if v3_near_zero(
                        v3_add(rec.norm, u),
                    ) {
                        rec.norm
                    } else {
                        v3_add(rec.norm, u)
                    }),
                None => true,
            },
    {
        let u = Vec3::random_unit(rng);
        let mut scatter_dir = rec.norm.plus(u);
        if scatter_dir.near_zero() {
            scatter_dir = rec.norm;
        }
        proof {
            assert(unit_sphere_sample(u) && scatter_dir == (if v3_near_zero(
                v3_add(rec.norm, u),
            ) {
                rec.norm
            } else {
                v3_add(rec.norm, u)
            }));
        }
        Some((Ray { origin: rec.p, direction: scatter_dir }, self.albedo))
    }

    /// Create a new Lambertian material with the given albedo.
    pub fn new(albedo: Vec3) -> (r: Lambertian)
        ensures
            r.albedo == albedo,
    {
        Lambertian { albedo }
    }
}

impl Metal {
    /// Scatter with metal reflectance: the mirror reflection of the
    /// incident direction, perturbed by `fuzz` times a random unit vector.
    pub fn scatter(&self, r_in: &Ray, rec: &HitRecord, rng: &mut RandSrc) -> (res: Option<
        (Ray, Vec3),
    >)
        requires
            albedo_wf(self.albedo),
            0 <= self.fuzz <= FX_ONE,
        ensures
            res.is_some(),
            match res {
                Some(rv) => rv.0.origin == rec.p && rv.1 == self.albedo && exists|u: Vec3|
                    #[trigger] unit_sphere_sample(u) && rv.0.direction == v3_add(
                        v3_unit(v3_reflect(r_in.direction, rec.norm)),
                        v3_scale(u, self.fuzz as int),
                    ),
                None => true,
            },
    {
        let reflected = r_in.direction.reflect(&rec.norm);
        let u = Vec3::random_unit(rng);
        let dir = reflected.unit().plus(u.scale(self.fuzz));
        proof {
            assert(unit_sphere_sample(u) && dir == v3_add(
                v3_unit(v3_reflect(r_in.direction, rec.norm)),
                v3_scale(u, self.fuzz as int),
            ));
        }
        Some((Ray { origin: rec.p, direction: dir }, self.albedo))
    }

    /// Create a new metal with the given fuzz, which must lie in `[0, 1]`:
    /// anything else is a programming error, rejected here rather than
    /// tolerated at scatter time.
    pub fn new(albedo: Vec3, fuzz: i64) -> (r: Metal)
        requires
            0 <= fuzz <= FX_ONE,
        ensures
            r.albedo == albedo,
            r.fuzz == fuzz,
    {
        Metal { albedo, fuzz }
    }
}

impl Dielectric {
    /// Create a new dielectric with the given refraction index.
    pub fn new(refraction_index: i64) -> (r: Dielectric)
        ensures
            r.refraction_index == refraction_index,
    {
        Dielectric { refraction_index }
    }

    /// The Schlick approximation to the Fresnel reflectance at
    /// near-grazing incidence.
    pub fn reflectance(cosine: i64, refraction_index: i64) -> (r: i64)
        ensures
            r as int == schlick_spec(cosine as int, refraction_index as int),
    {
        let r0a = fx_div(fx_sub(FX_ONE, refraction_index), fx_add(FX_ONE, refraction_index));
        let r0 = fx_mul(r0a, r0a);
        let omc = fx_sub(FX_ONE, cosine);
        let omc2 = fx_mul(omc, omc);
        let omc4 = fx_mul(omc2, omc2);
        let omc5 = fx_mul(omc4, omc);
        fx_add(r0, fx_mul(fx_sub(FX_ONE, r0), omc5))
    }

    /// Scatter by Snell's law: refract when geometrically possible and
    /// the Schlick reflectance loses a uniform random draw, reflect
    /// otherwise (always on total internal reflection).  Dielectrics are
    /// non-absorbing, so the attenuation is pure white.
    pub fn scatter(&self, r_in: &Ray, rec: &HitRecord, rng: &mut RandSrc) -> (res: Option<
        (Ray, Vec3),
    >)
        requires
            self.refraction_index >= 0,
        ensures
            res.is_some(),
            match res {
                Some(rv) => {
                    let ratio = dielectric_ratio(*self, rec.front_face);
                    let ud = v3_unit(r_in.direction);
                    &&& rv.0.origin == rec.p
                    &&& rv.1 == white_spec()
                    &&& (rv.0.direction == v3_reflect(ud, rec.norm) || rv.0.direction
                        == v3_refract(ud, rec.norm, ratio))
                    &&& fx_mul_spec(ratio, incidence_sin(ud, rec.norm)) > FX_ONE
                        ==> rv.0.direction == v3_reflect(ud, rec.norm)
                    &&& exists|xi: int|
                        #[trigger] uniform_draw(xi) && rv.0.direction == dielectric_direction(
                            ud,
                            rec.norm,
                            ratio,
                            (fx_mul_spec(ratio, incidence_sin(ud, rec.norm)) > FX_ONE),
                            schlick_spec(incidence_cos(ud, rec.norm), ratio),
                            xi,
                        )
                },
                None => true,
            },
    {
        let ri = if rec.front_face {
            fx_div(FX_ONE, self.refraction_index)
        } else {
            self.refraction_index
        };
        let unit_dir = r_in.direction.unit();
        let cos_raw = dot(&unit_dir.negate(), &rec.norm);
        let cos_theta = if cos_raw <= FX_ONE {
            cos_raw
        } else {
            FX_ONE
        };
        let sin_theta = fx_sqrt(fx_sub(FX_ONE, fx_mul(cos_theta, cos_theta)));
        let cannot_refract = fx_mul(ri, sin_theta) > FX_ONE;
        let direction = if cannot_refract {
            let d = unit_dir.reflect(&rec.norm);
            proof {
                assert(uniform_draw(0) && d == dielectric_direction(
                    v3_unit(r_in.direction),
                    rec.norm,
                    dielectric_ratio(*self, rec.front_face),
                    fx_mul_spec(
                        dielectric_ratio(*self, rec.front_face),
                        incidence_sin(v3_unit(r_in.direction), rec.norm),
                    ) > FX_ONE,
                    schlick_spec(
                        incidence_cos(v3_unit(r_in.direction), rec.norm),
                        dielectric_ratio(*self, rec.front_face),
                    ),
                    0,
                ));
            }
            d
        } else {
            let refl = Self::reflectance(cos_theta, ri);
            let xi = rng.next_closed_unit();
            let d = if refl > xi {
                unit_dir.reflect(&rec.norm)
            } else {
                unit_dir.refract(&rec.norm, ri)
            };
            proof {
                assert(uniform_draw(xi as int) && d == dielectric_direction(
                    v3_unit(r_in.direction),
                    rec.norm,
                    dielectric_ratio(*self, rec.front_face),
                    fx_mul_spec(
                        dielectric_ratio(*self, rec.front_face),
                        incidence_sin(v3_unit(r_in.direction), rec.norm),
                    ) > FX_ONE,
                    schlick_spec(
                        incidence_cos(v3_unit(r_in.direction), rec.norm),
                        dielectric_ratio(*self, rec.front_face),
                    ),
                    xi as int,
                ));
            }
            d
        };
        Some((Ray { origin: rec.p, direction }, white_spec_exec()))
    }
}

/// Pure white as an executable value.
fn white_spec_exec() -> (r: Vec3)
    ensures
        r == white_spec(),
{
    Vec3 { x: FX_ONE, y: FX_ONE, z: FX_ONE }
}

} // verus!
