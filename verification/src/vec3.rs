//! Three-component fixed-point vectors and the vector algebra the tracer
//! needs: componentwise arithmetic, dot and cross products, normalization,
//! reflection and refraction.

use vstd::prelude::*;

verus! {

use crate::fixed::FX_ONE;
use crate::fixed::fx_add;
use crate::fixed::fx_add_spec;
use crate::fixed::fx_div;
use crate::fixed::fx_div_spec;
use crate::fixed::fx_mul;
use crate::fixed::fx_mul_spec;
use crate::fixed::fx_neg;
use crate::fixed::fx_neg_spec;
use crate::fixed::fx_sqrt;
use crate::fixed::fx_sqrt_spec;
use crate::fixed::fx_max;
use crate::fixed::fx_min;
use crate::fixed::fx_sub;
use crate::fixed::fx_sub_spec;
use crate::fixed::flr;
use crate::fixed::fx_wf;
use crate::fixed::lemma_fx_mul_monotone;
use crate::fixed::lemma_fx_mul_scale;
use crate::rng::RandSrc;

/// Below this raw magnitude a component counts as zero for `near_zero`
/// (one raw unit is `2^-16` world units).
pub const NEAR_ZERO_EPS: i64 = 2;

/// A three-component vector of fixed-point values; doubles as a point and
/// as an RGB colour.
#[derive(Clone, Copy, Debug, PartialEq, Eq, Structural)]
pub struct Vec3 {
    /// The first component.
    pub x: i64,
    /// The second component.
    pub y: i64,
    /// The third component.
    pub z: i64,
}

/// Componentwise sum.
pub open spec fn v3_add(u: Vec3, v: Vec3) -> Vec3 {
    Vec3 {
        x: fx_add_spec(u.x as int, v.x as int) as i64,
        y: fx_add_spec(u.y as int, v.y as int) as i64,
        z: fx_add_spec(u.z as int, v.z as int) as i64,
    }
}

/// Componentwise difference.
pub open spec fn v3_sub(u: Vec3, v: Vec3) -> Vec3 {
    Vec3 {
        x: fx_sub_spec(u.x as int, v.x as int) as i64,
        y: fx_sub_spec(u.y as int, v.y as int) as i64,
        z: fx_sub_spec(u.z as int, v.z as int) as i64,
    }
}

/// Componentwise negation.
pub open spec fn v3_neg(u: Vec3) -> Vec3 {
    Vec3 {
        x: fx_neg_spec(u.x as int) as i64,
        y: fx_neg_spec(u.y as int) as i64,
        z: fx_neg_spec(u.z as int) as i64,
    }
}

/// Scaling by a fixed-point scalar.
pub open spec fn v3_scale(u: Vec3, k: int) -> Vec3 {
    Vec3 {
        x: fx_mul_spec(u.x as int, k) as i64,
        y: fx_mul_spec(u.y as int, k) as i64,
        z: fx_mul_spec(u.z as int, k) as i64,
    }
}

/// Division of every component by a fixed-point scalar.
pub open spec fn v3_div(u: Vec3, k: int) -> Vec3 {
    Vec3 {
        x: fx_div_spec(u.x as int, k) as i64,
        y: fx_div_spec(u.y as int, k) as i64,
        z: fx_div_spec(u.z as int, k) as i64,
    }
}

/// Componentwise (Hadamard) product, used for colour attenuation.
pub open spec fn v3_mul(u: Vec3, v: Vec3) -> Vec3 {
    Vec3 {
        x: fx_mul_spec(u.x as int, v.x as int) as i64,
        y: fx_mul_spec(u.y as int, v.y as int) as i64,
        z: fx_mul_spec(u.z as int, v.z as int) as i64,
    }
}

/// The dot product, summed left to right.
pub open spec fn v3_dot(u: Vec3, v: Vec3) -> int {
    fx_add_spec(
        fx_add_spec(fx_mul_spec(u.x as int, v.x as int), fx_mul_spec(u.y as int, v.y as int)),
        fx_mul_spec(u.z as int, v.z as int),
    )
}

/// The cross product.
pub open spec fn v3_cross(u: Vec3, v: Vec3) -> Vec3 {
    Vec3 {
        x: fx_sub_spec(fx_mul_spec(u.y as int, v.z as int), fx_mul_spec(u.z as int, v.y as int))
            as i64,
        y: fx_sub_spec(fx_mul_spec(u.z as int, v.x as int), fx_mul_spec(u.x as int, v.z as int))
            as i64,
        z: fx_sub_spec(fx_mul_spec(u.x as int, v.y as int), fx_mul_spec(u.y as int, v.x as int))
            as i64,
    }
}

/// The squared length.
pub open spec fn v3_len_sq(u: Vec3) -> int {
    v3_dot(u, u)
}

/// The length.
pub open spec fn v3_len(u: Vec3) -> int {
    fx_sqrt_spec(v3_len_sq(u))
}

/// The unit vector in the direction of `u` (division saturates if the
/// length rounds to zero).
pub open spec fn v3_unit(u: Vec3) -> Vec3 {
    v3_div(u, v3_len(u))
}

/// Every component is below the `near_zero` threshold in magnitude.
pub open spec fn v3_near_zero(u: Vec3) -> bool {
    -NEAR_ZERO_EPS < u.x < NEAR_ZERO_EPS && -NEAR_ZERO_EPS < u.y < NEAR_ZERO_EPS
        && -NEAR_ZERO_EPS < u.z < NEAR_ZERO_EPS
}

/// Mirror reflection of `u` about the plane with normal `n`:
/// `u - n * (2 * dot(u, n))`.
pub open spec fn v3_reflect(u: Vec3, n: Vec3) -> Vec3 {
    v3_sub(u, v3_scale(n, fx_mul_spec(2 * FX_ONE, v3_dot(u, n))))
}

/// Refraction of the unit vector `u` at a surface with normal `n` and
/// refractive-index ratio `etai_over_etat`, by Snell's law.
pub open spec fn v3_refract(u: Vec3, n: Vec3, etai_over_etat: int) -> Vec3 {
    let cos_theta_raw = v3_dot(v3_neg(u), n);
    let cos_theta = if cos_theta_raw <= FX_ONE {
        cos_theta_raw
    } else {
        FX_ONE as int
    };
    let r_out_perp = v3_scale(v3_add(u, v3_scale(n, cos_theta)), etai_over_etat);
    let k = fx_sub_spec(FX_ONE as int, v3_len_sq(r_out_perp));
    let k_abs = if k < 0 {
        -k
    } else {
        k
    };
    let r_out_parallel = v3_scale(n, fx_neg_spec(fx_sqrt_spec(k_abs)));
    v3_add(r_out_perp, r_out_parallel)
}

/// The shape of every vector `random_unit` produces: components within
/// the unit cube and a squared length within a small band around one.
pub open spec fn unit_sphere_sample(u: Vec3) -> bool {
    &&& -FX_ONE <= u.x <= FX_ONE && -FX_ONE <= u.y <= FX_ONE && -FX_ONE <= u.z <= FX_ONE
    &&& FX_ONE - 2048 <= v3_len_sq(u) <= FX_ONE + 2048
}

/// Clamp every component into `[-1, 1]`.
fn clamp_unit_cube(v: Vec3) -> (r: Vec3)
    ensures
        -FX_ONE <= r.x <= FX_ONE && -FX_ONE <= r.y <= FX_ONE && -FX_ONE <= r.z <= FX_ONE,
{
    Vec3 {
        x: fx_max(-FX_ONE, fx_min(FX_ONE, v.x)),
        y: fx_max(-FX_ONE, fx_min(FX_ONE, v.y)),
        z: fx_max(-FX_ONE, fx_min(FX_ONE, v.z)),
    }
}

/// Negation preserves the unit-sample shape: the cube bounds are
/// symmetric, and each component's square survives negation exactly.
proof fn lemma_negate_keeps_sample(u: Vec3)
    requires
        unit_sphere_sample(u),
    ensures
        unit_sphere_sample(v3_neg(u)),
{
    lemma_square_of_neg(u.x as int);
    lemma_square_of_neg(u.y as int);
    lemma_square_of_neg(u.z as int);
}

/// Squaring ignores the sign.
proof fn lemma_square_of_neg(a: int)
    requires
        fx_wf(a),
    ensures
        fx_mul_spec(fx_neg_spec(a), fx_neg_spec(a)) == fx_mul_spec(a, a),
{
    assert((-a) * (-a) == a * a) by (nonlinear_arith);
}

/// A closed-unit random sample scales a nonnegative extent into `[0, d]`.
proof fn lemma_random_in_component(d: int)
    requires
        0 <= d <= 0x2000_0000_0000,
    ensures
        forall|u: int| 0 <= u <= FX_ONE ==> 0 <= #[trigger] fx_mul_spec(u, d) <= d,
{
    assert forall|u: int| 0 <= u <= FX_ONE implies 0 <= #[trigger] fx_mul_spec(u, d) <= d by {
        lemma_fx_mul_monotone(u, d, FX_ONE as int, d);
        lemma_fx_mul_scale(d);
    }
}

/// Linear-to-gamma conversion: a square root with a guard that the
/// operand is positive.
pub open spec fn linear_to_gamma_spec(c: int) -> int {
    if c > 0 {
        fx_sqrt_spec(c)
    } else {
        0
    }
}

/// Linear-to-gamma conversion.
fn linear_to_gamma(c: i64) -> (r: i64)
    ensures
        r as int == linear_to_gamma_spec(c as int),
        r >= 0,
{
    if c > 0 {
        fx_sqrt(c)
    } else {
        0
    }
}

/// One colour channel as an 8-bit value: gamma-corrected, clamped into
/// `[0, 0.999]`, scaled by 256 and floored.
pub open spec fn to_byte_spec(c: int) -> int {
    let g = linear_to_gamma_spec(c);
    let v = if g < 0 {
        0
    } else if g > 65470 {
        65470
    } else {
        g
    };
    flr(v * 256, 65536)
}

/// One colour channel as an 8-bit value.
fn channel_byte(c: i64) -> (r: u8)
    ensures
        r as int == to_byte_spec(c as int),
{
    let g = linear_to_gamma(c);
    let v: i64 = if g > 65470 {
        65470
    } else {
        g
    };
    proof {
        crate::fixed::lemma_flr_bounds(v as int * 256, 65536);
    }
    ((v as u64) * 256 / 65536) as u8
}

/// The dot product of two vectors.
pub fn dot(u: &Vec3, v: &Vec3) -> (r: i64)
    ensures
        r as int == v3_dot(*u, *v),
{
    fx_add(fx_add(fx_mul(u.x, v.x), fx_mul(u.y, v.y)), fx_mul(u.z, v.z))
}

/// The cross product of two vectors.
pub fn cross(u: &Vec3, v: &Vec3) -> (r: Vec3)
    ensures
        r == v3_cross(*u, *v),
{
    Vec3 {
        x: fx_sub(fx_mul(u.y, v.z), fx_mul(u.z, v.y)),
        y: fx_sub(fx_mul(u.z, v.x), fx_mul(u.x, v.z)),
        z: fx_sub(fx_mul(u.x, v.y), fx_mul(u.y, v.x)),
    }
}

impl Vec3 {
    /// Create a new vector with the given components.
    pub fn new(x: i64, y: i64, z: i64) -> (r: Vec3)
        ensures
            r == (Vec3 { x, y, z }),
    {
        Vec3 { x, y, z }
    }

    /// The componentwise sum of `self` and `other`.
    pub fn plus(self, other: Vec3) -> (r: Vec3)
        ensures
            r == v3_add(self, other),
    {
        Vec3 {
            x: fx_add(self.x, other.x),
            y: fx_add(self.y, other.y),
            z: fx_add(self.z, other.z),
        }
    }

    /// The componentwise difference of `self` and `other`.
    pub fn minus(self, other: Vec3) -> (r: Vec3)
        ensures
            r == v3_sub(self, other),
    {
        Vec3 {
            x: fx_sub(self.x, other.x),
            y: fx_sub(self.y, other.y),
            z: fx_sub(self.z, other.z),
        }
    }

    /// The componentwise negation of `self`.
    pub fn negate(self) -> (r: Vec3)
        ensures
            r == v3_neg(self),
    {
        Vec3 { x: fx_neg(self.x), y: fx_neg(self.y), z: fx_neg(self.z) }
    }

    /// `self` scaled by the fixed-point scalar `k`.
    pub fn scale(self, k: i64) -> (r: Vec3)
        ensures
            r == v3_scale(self, k as int),
    {
        Vec3 { x: fx_mul(self.x, k), y: fx_mul(self.y, k), z: fx_mul(self.z, k) }
    }

    /// Every component of `self` divided by the fixed-point scalar `k`.
    pub fn divide(self, k: i64) -> (r: Vec3)
        ensures
            r == v3_div(self, k as int),
    {
        Vec3 { x: fx_div(self.x, k), y: fx_div(self.y, k), z: fx_div(self.z, k) }
    }

    /// The componentwise product of `self` and `other`.
    pub fn times(self, other: Vec3) -> (r: Vec3)
        ensures
            r == v3_mul(self, other),
    {
        Vec3 {
            x: fx_mul(self.x, other.x),
            y: fx_mul(self.y, other.y),
            z: fx_mul(self.z, other.z),
        }
    }

    /// The squared length of `self`.
    pub fn length_squared(&self) -> (r: i64)
        ensures
            r as int == v3_len_sq(*self),
    {
        dot(self, self)
    }

    /// The length of `self`.
    pub fn length(&self) -> (r: i64)
        ensures
            r as int == v3_len(*self),
            r >= 0,
    {
        fx_sqrt(self.length_squared())
    }

    /// The unit vector in the direction of `self`.
    pub fn unit(&self) -> (r: Vec3)
        ensures
            r == v3_unit(*self),
    {
        self.divide(self.length())
    }

    /// Whether every component of `self` is (almost) zero.
    pub fn near_zero(self) -> (r: bool)
        ensures
            r == v3_near_zero(self),
    {
        let e = NEAR_ZERO_EPS;
        -e < self.x && self.x < e && -e < self.y && self.y < e && -e < self.z && self.z < e
    }

    /// Reflect `self` about the surface normal `norm`.
    pub fn reflect(&self, norm: &Vec3) -> (r: Vec3)
        ensures
            r == v3_reflect(*self, *norm),
    {
        self.minus(norm.scale(fx_mul(2 * FX_ONE, dot(self, norm))))
    }

    /// Generate a random vector with components drawn from `[0, 1]`.
    pub fn random(rng: &mut RandSrc) -> (r: Vec3)
        ensures
            0 <= r.x <= FX_ONE && 0 <= r.y <= FX_ONE && 0 <= r.z <= FX_ONE,
    {
        Vec3 { x: rng.next_closed_unit(), y: rng.next_closed_unit(), z: rng.next_closed_unit() }
    }

    /// Generate a random vector with components drawn from `[min, max]`.
    pub fn random_in(min: i64, max: i64, rng: &mut RandSrc) -> (r: Vec3)
        requires
            -0x1000_0000_0000 <= min <= max <= 0x1000_0000_0000,
        ensures
            min <= r.x <= max && min <= r.y <= max && min <= r.z <= max,
    {
        let d = max - min;
        proof {
            lemma_random_in_component(d as int);
        }
        Vec3 {
            x: min + fx_mul(rng.next_closed_unit(), d),
            y: min + fx_mul(rng.next_closed_unit(), d),
            z: min + fx_mul(rng.next_closed_unit(), d),
        }
    }

    /// Generate a random unit vector by rejection sampling in the cube:
    /// points outside the unit ball, or too close to the origin to
    /// normalize safely, are rejected, as is (belt and braces against
    /// rounding) any candidate whose normalized length strays from one.
    /// Components are clamped into `[-1, 1]`.
    pub fn random_unit(rng: &mut RandSrc) -> (r: Vec3)
        ensures
            unit_sphere_sample(r),
    {
        let mut attempts: u32 = 0;
        while attempts < 64
            invariant
                attempts <= 64,
            decreases 64 - attempts,
        {
            let p = Vec3 {
                x: rng.next_symmetric(),
                y: rng.next_symmetric(),
                z: rng.next_symmetric(),
            };
            let lensq = p.length_squared();
            if 16 < lensq && lensq <= FX_ONE {
                let u = clamp_unit_cube(p.unit());
                let ul = u.length_squared();
                if FX_ONE - 2048 <= ul && ul <= FX_ONE + 2048 {
                    return u;
                }
            }
            attempts = attempts + 1;
        }
        proof {
            lemma_fx_mul_scale(FX_ONE as int);
        }
        Vec3 { x: 0, y: 0, z: FX_ONE }
    }

    /// Generate a random unit vector on the hemisphere around the
    /// outward normal: its dot product with the normal is nonnegative.
    /// When rounding leaves both a draw and its negation fractionally
    /// below the plane, the normal itself stands in.
    pub fn random_on_hemi(normal: Vec3, rng: &mut RandSrc) -> (r: Vec3)
        ensures
            v3_dot(r, normal) >= 0,
            unit_sphere_sample(r) || r == normal,
    {
        let on_unit_sphere = Vec3::random_unit(rng);
        if dot(&on_unit_sphere, &normal) > 0 {
            return on_unit_sphere;
        }
        let negated = on_unit_sphere.negate();
        if dot(&negated, &normal) >= 0 {
            proof {
                lemma_negate_keeps_sample(on_unit_sphere);
            }
            return negated;
        }
        proof {
            crate::sphere::lemma_len_sq_nonneg(normal);
        }
        normal
    }

    /// Generate a random vector in the unit disc of the XY plane, for
    /// defocus blur.
    pub fn random_in_unit_disc(rng: &mut RandSrc) -> (r: Vec3)
        ensures
            -FX_ONE <= r.x <= FX_ONE && -FX_ONE <= r.y <= FX_ONE && r.z == 0,
            v3_len_sq(r) < FX_ONE,
    {
        let mut attempts: u32 = 0;
        while attempts < 64
            invariant
                attempts <= 64,
            decreases 64 - attempts,
        {
            let p = Vec3 { x: rng.next_symmetric(), y: rng.next_symmetric(), z: 0 };
            if p.length_squared() < FX_ONE {
                return p;
            }
            attempts = attempts + 1;
        }
        Vec3 { x: 0, y: 0, z: 0 }
    }

    /// Convert a colour vector to gamma-corrected 8-bit RGB.
    pub fn to_rgb(self) -> (r: [u8; 3])
        ensures
            r@.len() == 3,
            r@[0] as int == to_byte_spec(self.x as int),
            r@[1] as int == to_byte_spec(self.y as int),
            r@[2] as int == to_byte_spec(self.z as int),
    {
        [channel_byte(self.x), channel_byte(self.y), channel_byte(self.z)]
    }

    /// Refract the unit vector `self` at a surface with normal `norm` and
    /// refractive-index ratio `etai_over_etat` (Snell's law; the radicand is
    /// taken by absolute value to guard against rounding below zero).
    pub fn refract(&self, norm: &Vec3, etai_over_etat: i64) -> (r: Vec3)
        ensures
            r == v3_refract(*self, *norm, etai_over_etat as int),
    {
        let cos_raw = dot(&self.negate(), norm);
        let cos_theta = if cos_raw <= FX_ONE {
            cos_raw
        } else {
            FX_ONE
        };
        let r_out_perp = self.plus(norm.scale(cos_theta)).scale(etai_over_etat);
        let k = fx_sub(FX_ONE, r_out_perp.length_squared());
        let k_abs = if k < 0 {
            -k
        } else {
            k
        };
        let r_out_parallel = norm.scale(fx_neg(fx_sqrt(k_abs)));
        r_out_perp.plus(r_out_parallel)
    }
}

} // verus!
