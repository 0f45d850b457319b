//! Widely useful scalar helpers: angle conversion and the series
//! approximations of sine, cosine and tangent used for camera setup.

use vstd::prelude::*;

verus! {

use crate::fixed::FX_ONE;
use crate::fixed::fx_add;
use crate::fixed::fx_add_spec;
use crate::fixed::fx_div;
use crate::fixed::fx_div_spec;
use crate::fixed::fx_mul;
use crate::fixed::fx_mul_spec;
use crate::fixed::fx_sub;
use crate::fixed::fx_sub_spec;

/// The circle constant in raw units (`pi * 2^16`, rounded).
pub const PI_FX: i64 = 205887;

/// Convert degrees to radians.
pub open spec fn deg_to_rad_spec(deg: int) -> int {
    fx_div_spec(fx_mul_spec(deg, PI_FX as int), 180 * FX_ONE)
}

/// Convert degrees to radians.
pub fn deg_to_rad(deg: i64) -> (r: i64)
    ensures
        r as int == deg_to_rad_spec(deg as int),
{
    fx_div(fx_mul(deg, PI_FX), 180 * FX_ONE)
}

/// The truncated Taylor series for sine: `x - x^3/6 + x^5/120 - x^7/5040`.
pub open spec fn sin_fx_spec(x: int) -> int {
    let x2 = fx_mul_spec(x, x);
    let x3 = fx_mul_spec(x2, x);
    let x5 = fx_mul_spec(x3, x2);
    let x7 = fx_mul_spec(x5, x2);
    fx_sub_spec(
        fx_add_spec(fx_sub_spec(x, fx_div_spec(x3, 6 * FX_ONE)), fx_div_spec(x5, 120 * FX_ONE)),
        fx_div_spec(x7, 5040 * FX_ONE),
    )
}

/// The truncated Taylor series for cosine: `1 - x^2/2 + x^4/24 - x^6/720`.
pub open spec fn cos_fx_spec(x: int) -> int {
    let x2 = fx_mul_spec(x, x);
    let x4 = fx_mul_spec(x2, x2);
    let x6 = fx_mul_spec(x4, x2);
    fx_sub_spec(
        fx_add_spec(
            fx_sub_spec(FX_ONE as int, fx_div_spec(x2, 2 * FX_ONE)),
            fx_div_spec(x4, 24 * FX_ONE),
        ),
        fx_div_spec(x6, 720 * FX_ONE),
    )
}

/// The tangent as the ratio of the two series.
pub open spec fn tan_fx_spec(x: int) -> int {
    fx_div_spec(sin_fx_spec(x), cos_fx_spec(x))
}

/// The truncated Taylor series for sine.
pub fn sin_fx(x: i64) -> (r: i64)
    ensures
        r as int == sin_fx_spec(x as int),
{
    let x2 = fx_mul(x, x);
    let x3 = fx_mul(x2, x);
    let x5 = fx_mul(x3, x2);
    let x7 = fx_mul(x5, x2);
    fx_sub(
        fx_add(fx_sub(x, fx_div(x3, 6 * FX_ONE)), fx_div(x5, 120 * FX_ONE)),
        fx_div(x7, 5040 * FX_ONE),
    )
}

/// The truncated Taylor series for cosine.
pub fn cos_fx(x: i64) -> (r: i64)
    ensures
        r as int == cos_fx_spec(x as int),
{
    let x2 = fx_mul(x, x);
    let x4 = fx_mul(x2, x2);
    let x6 = fx_mul(x4, x2);
    fx_sub(
        fx_add(fx_sub(FX_ONE, fx_div(x2, 2 * FX_ONE)), fx_div(x4, 24 * FX_ONE)),
        fx_div(x6, 720 * FX_ONE),
    )
}

/// The tangent as the ratio of the two series (saturating where cosine
/// rounds to zero).
pub fn tan_fx(x: i64) -> (r: i64)
    ensures
        r as int == tan_fx_spec(x as int),
{
    fx_div(sin_fx(x), cos_fx(x))
}

} // verus!
