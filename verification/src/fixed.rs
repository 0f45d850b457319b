//! Fixed-point scalar arithmetic.
//!
//! Every world-space quantity in this crate is a `Q47.16` fixed-point number:
//! an `i64` whose raw value divided by `SCALE = 2^16` is the quantity it
//! stands for.  All operations saturate at `FX_MAX` / `-FX_MAX`, which play
//! the role of positive and negative infinity (an empty interval is written
//! `(FX_MAX, -FX_MAX)`, for instance).  `i64::MIN` is never produced, so
//! negation is always safe.

use vstd::prelude::*;

verus! {

use vstd::arithmetic::div_mod::lemma_fundamental_div_mod;
use vstd::arithmetic::div_mod::lemma_fundamental_div_mod_converse;
use vstd::arithmetic::mul::lemma_mul_inequality;

/// Raw units per world unit.
pub const SCALE: i64 = 65536;

/// One world unit in raw units.
pub const FX_ONE: i64 = 65536;

/// Half a world unit in raw units.
pub const FX_HALF: i64 = 32768;

/// The saturation bound, used as "positive infinity".
pub const FX_MAX: i64 = 0x7fff_ffff_ffff_ffff;

/// A raw value is well formed when its negation is still an `i64`.
pub open spec fn fx_wf(x: int) -> bool {
    -FX_MAX <= x <= FX_MAX
}

/// Saturate an unbounded integer into the well-formed raw range.
pub open spec fn fx_clip(x: int) -> int {
    if x > FX_MAX {
        FX_MAX as int
    } else if x < -FX_MAX {
        -FX_MAX as int
    } else {
        x
    }
}

/// Floor division, total: division by zero yields zero.  For a nonzero
/// divisor this is the mathematical floor of the rational `a / b`.
pub open spec fn flr(a: int, b: int) -> int {
    if b == 0 {
        0
    } else if b < 0 {
        (-a) / (-b)
    } else {
        a / b
    }
}

/// Ceiling division, total like `flr`.
pub open spec fn cl(a: int, b: int) -> int {
    -flr(-a, b)
}

/// Saturating fixed-point addition.
pub open spec fn fx_add_spec(a: int, b: int) -> int {
    fx_clip(a + b)
}

/// Saturating fixed-point subtraction.
pub open spec fn fx_sub_spec(a: int, b: int) -> int {
    fx_clip(a - b)
}

/// Fixed-point negation.
pub open spec fn fx_neg_spec(a: int) -> int {
    fx_clip(-a)
}

/// Saturating fixed-point multiplication: `floor(a * b / SCALE)`, clipped.
pub open spec fn fx_mul_spec(a: int, b: int) -> int {
    fx_clip(flr(a * b, SCALE as int))
}

/// Saturating fixed-point division: `floor(a * SCALE / b)`, clipped.
/// Division by zero saturates with the sign of the dividend, like the
/// infinities that floating-point division by zero would produce.
pub open spec fn fx_div_spec(a: int, b: int) -> int {
    if b == 0 {
        if a > 0 {
            FX_MAX as int
        } else if a < 0 {
            -FX_MAX as int
        } else {
            0
        }
    } else {
        fx_clip(flr(a * SCALE, b))
    }
}

/// The integer square-root floor, defined by linear recursion; this is the
/// reference meaning of the executable binary search below.
pub open spec fn sqrt_floor(n: int) -> int
    decreases n,
{
    if n < 1 {
        0
    } else {
        let r = sqrt_floor(n - 1);
        if (r + 1) * (r + 1) <= n {
            r + 1
        } else {
            r
        }
    }
}

/// Fixed-point square root: `floor(sqrt(a / SCALE)) * SCALE` in raw units,
/// i.e. `sqrt_floor(a * SCALE)`.  Negative inputs yield zero.
pub open spec fn fx_sqrt_spec(a: int) -> int {
    if a <= 0 {
        0
    } else {
        sqrt_floor(a * SCALE)
    }
}

/// `sqrt_floor(n)` squares to at most `n`, and is the largest such value.
pub proof fn lemma_sqrt_floor(n: int)
    ensures
        sqrt_floor(n) >= 0,
        n >= 0 ==> sqrt_floor(n) * sqrt_floor(n) <= n,
        n >= 0 ==> n < (sqrt_floor(n) + 1) * (sqrt_floor(n) + 1),
    decreases n,
{
    if n < 1 {
    } else {
        lemma_sqrt_floor(n - 1);
        let r = sqrt_floor(n - 1);
        if (r + 1) * (r + 1) <= n {
            assert(sqrt_floor(n) == r + 1);
            assert(n < (r + 2) * (r + 2)) by (nonlinear_arith)
                requires
                    r >= 0,
                    n - 1 < (r + 1) * (r + 1),
            ;
            assert((sqrt_floor(n) + 1) * (sqrt_floor(n) + 1) == (r + 2) * (r + 2));
        } else {
            assert(sqrt_floor(n) == r);
        }
    }
}

/// A nonnegative `r` with `r^2 <= n < (r+1)^2` is exactly `sqrt_floor(n)`.
pub proof fn lemma_sqrt_floor_unique(n: int, r: int)
    requires
        r >= 0,
        r * r <= n,
        n < (r + 1) * (r + 1),
    ensures
        r == sqrt_floor(n),
{
    lemma_sqrt_floor(n);
    let s = sqrt_floor(n);
    if r < s {
        lemma_mul_inequality(r + 1, s, r + 1);
        lemma_mul_inequality(r + 1, s, s);
        assert(false);
    }
    if s < r {
        lemma_mul_inequality(s + 1, r, s + 1);
        lemma_mul_inequality(s + 1, r, r);
        assert(false);
    }
}

/// Saturate an `i128` into the raw `i64` range.
fn clip128(x: i128) -> (r: i64)
    ensures
        r as int == fx_clip(x as int),
{
    if x > FX_MAX as i128 {
        FX_MAX
    } else if x < -(FX_MAX as i128) {
        -FX_MAX
    } else {
        x as i64
    }
}

/// Floor division of an `i128` by a nonzero `i128`, via unsigned magnitudes.
pub fn floor_div_i128(x: i128, d: i128) -> (r: i128)
    requires
        d != 0,
        -0x4000_0000_0000_0000_0000_0000_0000_0000 <= x
            <= 0x4000_0000_0000_0000_0000_0000_0000_0000,
        -0x4000_0000_0000_0000_0000_0000_0000_0000 <= d
            <= 0x4000_0000_0000_0000_0000_0000_0000_0000,
    ensures
        r as int == flr(x as int, d as int),
        d > 0 ==> (d as int) * (r as int) <= x as int && (d as int) * (r as int + 1) > x as int,
        -0x4000_0000_0000_0000_0000_0000_0000_0001 <= r
            <= 0x4000_0000_0000_0000_0000_0000_0000_0000,
{
    let (xx, dd): (i128, i128) = if d < 0 { (-x, -d) } else { (x, d) };
    proof {
        assert(flr(x as int, d as int) == flr(xx as int, dd as int));
    }
    let du = dd as u128;
    let r: i128 = if xx >= 0 {
        let q = xx as u128 / du;
        proof {
            lemma_fundamental_div_mod(xx as int, du as int);
            assert(q <= xx) by (nonlinear_arith)
                requires
                    xx as int == (du as int) * (q as int) + (xx as int) % (du as int),
                    (xx as int) % (du as int) >= 0,
                    du >= 1,
                    q >= 0,
            ;
            lemma_flr_nonneg(xx as int, dd as int);
        }
        q as i128
    } else {
        let m = (-xx) as u128;
        let q = m / du;
        let rem = m % du;
        let q2: u128 = if rem > 0 {
            q + 1
        } else {
            q
        };
        proof {
            lemma_fundamental_div_mod(m as int, du as int);
            assert(q <= m) by (nonlinear_arith)
                requires
                    m as int == (du as int) * (q as int) + (rem as int),
                    rem >= 0,
                    du >= 1,
                    q >= 0,
            ;
            lemma_flr_neg(xx as int, dd as int);
        }
        -(q2 as i128)
    };
    proof {
        if dd > 0 {
            lemma_flr_bounds(xx as int, dd as int);
        }
        if d > 0 {
            assert((d as int) * (r as int) <= x as int && (d as int) * (r as int + 1) > x as int);
        }
    }
    r
}

/// For a positive divisor, floor division of a nonnegative dividend is the
/// Euclidean quotient.
proof fn lemma_flr_nonneg(x: int, d: int)
    requires
        x >= 0,
        d > 0,
    ensures
        flr(x, d) == x / d,
{
}

/// For a positive divisor and a negative dividend `x = -m`, the floor
/// quotient is `-(m / d)` minus one more when `d` does not divide `m`.
proof fn lemma_flr_neg(x: int, d: int)
    requires
        x < 0,
        d > 0,
    ensures
        flr(x, d) == if (-x) % d > 0 {
            -((-x) / d) - 1
        } else {
            -((-x) / d)
        },
{
    let m = -x;
    lemma_fundamental_div_mod(m, d);
    let q = m / d;
    let r = m % d;
    if r > 0 {
        assert(x == (-q - 1) * d + (d - r)) by (nonlinear_arith)
            requires
                m == d * q + r,
                m == -x,
        ;
        lemma_fundamental_div_mod_converse(x, d, -q - 1, d - r);
    } else {
        assert(x == (-q) * d + 0) by (nonlinear_arith)
            requires
                m == d * q + r,
                m == -x,
                r == 0,
        ;
        lemma_fundamental_div_mod_converse(x, d, -q, 0);
    }
}

/// The defining inequalities of floor division by a positive divisor.
pub proof fn lemma_flr_bounds(x: int, d: int)
    requires
        d > 0,
    ensures
        d * flr(x, d) <= x < d * (flr(x, d) + 1),
{
    lemma_fundamental_div_mod(x, d);
    vstd::arithmetic::mul::lemma_mul_is_distributive_add(d, flr(x, d), 1);
}

/// The floor quotient is the unique `q` with `d*q <= x < d*(q+1)`.
pub proof fn lemma_flr_unique(x: int, d: int, q: int)
    requires
        d > 0,
        d * q <= x < d * (q + 1),
    ensures
        q == flr(x, d),
{
    assert(0 <= x - d * q < d) by (nonlinear_arith)
        requires
            d > 0,
            d * q <= x,
            d * (q + 1) > x,
    ;
    assert(x == q * d + (x - d * q)) by (nonlinear_arith);
    lemma_fundamental_div_mod_converse(x, d, q, x - d * q);
}

/// Saturating fixed-point addition.
pub fn fx_add(a: i64, b: i64) -> (r: i64)
    ensures
        r as int == fx_add_spec(a as int, b as int),
{
    clip128(a as i128 + b as i128)
}

/// Saturating fixed-point subtraction.
pub fn fx_sub(a: i64, b: i64) -> (r: i64)
    ensures
        r as int == fx_sub_spec(a as int, b as int),
{
    clip128(a as i128 - b as i128)
}

/// Fixed-point negation (saturating at the symmetric bound).
pub fn fx_neg(a: i64) -> (r: i64)
    ensures
        r as int == fx_neg_spec(a as int),
{
    clip128(-(a as i128))
}

/// Saturating fixed-point multiplication.
pub fn fx_mul(a: i64, b: i64) -> (r: i64)
    ensures
        r as int == fx_mul_spec(a as int, b as int),
{
    proof {
        assert(-0x4000_0000_0000_0000_0000_0000_0000_0000 <= (a as int) * (b as int)
            && (a as int) * (b as int) <= 0x4000_0000_0000_0000_0000_0000_0000_0000)
            by (nonlinear_arith)
            requires
                -0x8000_0000_0000_0000 <= a <= 0x7fff_ffff_ffff_ffff,
                -0x8000_0000_0000_0000 <= b <= 0x7fff_ffff_ffff_ffff,
        ;
    }
    let p: i128 = a as i128 * b as i128;
    let q = floor_div_i128(p, SCALE as i128);
    clip128(q)
}

/// Saturating fixed-point division, total in the divisor.
pub fn fx_div(a: i64, b: i64) -> (r: i64)
    ensures
        r as int == fx_div_spec(a as int, b as int),
{
    if b == 0 {
        if a > 0 {
            FX_MAX
        } else if a < 0 {
            -FX_MAX
        } else {
            0
        }
    } else {
        proof {
            assert(-0x4000_0000_0000_0000_0000_0000_0000_0000 <= (a as int) * (SCALE as int)
                && (a as int) * (SCALE as int) <= 0x4000_0000_0000_0000_0000_0000_0000_0000)
                by (nonlinear_arith)
                requires
                    -0x8000_0000_0000_0000 <= a <= 0x7fff_ffff_ffff_ffff,
            ;
        }
        let p: i128 = a as i128 * SCALE as i128;
        let q = floor_div_i128(p, b as i128);
        clip128(q)
    }
}

/// Integer square root of a `u128` below `2^126`, by binary search.
pub fn isqrt(n: u128) -> (r: u128)
    requires
        n < 0x4000_0000_0000_0000_0000_0000_0000_0000,
    ensures
        r * r <= n,
        n < (r + 1) * (r + 1),
{
    if n == 0 {
        return 0;
    }
    let mut lo: u128 = 0;
    let mut hi: u128 = 0x8000_0000_0000_0000;
    proof {
        assert(hi * hi == 0x4000_0000_0000_0000_0000_0000_0000_0000) by (nonlinear_arith)
            requires
                hi == 0x8000_0000_0000_0000u128,
        ;
    }
    while lo + 1 < hi
        invariant
            lo < hi,
            hi <= 0x8000_0000_0000_0000,
            lo * lo <= n,
            n < hi * hi,
        decreases hi - lo,
    {
        let mid = lo + (hi - lo) / 2;
        proof {
            assert(mid < hi);
            assert((mid as int) * (mid as int) <= 0x4000_0000_0000_0000_0000_0000_0000_0000)
                by (nonlinear_arith)
                requires
                    0 <= mid <= 0x8000_0000_0000_0000u128,
            ;
            lemma_mul_inequality(mid as int, hi as int, mid as int);
            lemma_mul_inequality(mid as int, hi as int, hi as int);
        }
        if mid * mid <= n {
            lo = mid;
        } else {
            hi = mid;
        }
    }
    lo
}

/// Fixed-point square root; negative inputs yield zero.
pub fn fx_sqrt(a: i64) -> (r: i64)
    ensures
        r as int == fx_sqrt_spec(a as int),
        r >= 0,
{
    if a <= 0 {
        0
    } else {
        proof {
            assert((a as int) * (SCALE as int) < 0x4000_0000_0000_0000_0000_0000_0000_0000)
                by (nonlinear_arith)
                requires
                    0 < a <= 0x7fff_ffff_ffff_ffff,
            ;
        }
        let n: u128 = a as u128 * SCALE as u128;
        let s = isqrt(n);
        proof {
            assert(s < 0x1_0000_0000_0000) by (nonlinear_arith)
                requires
                    s * s <= n,
                    n < 0x1_0000_0000_0000_0000_0000_0000,
            ;
            lemma_sqrt_floor_unique(n as int, s as int);
        }
        s as i64
    }
}

/// The smaller of two raw values.
pub fn fx_min(a: i64, b: i64) -> (r: i64)
    ensures
        r == if a as int <= b as int { a } else { b },
{
    if a <= b {
        a
    } else {
        b
    }
}

/// The larger of two raw values.
pub fn fx_max(a: i64, b: i64) -> (r: i64)
    ensures
        r == if a as int >= b as int { a } else { b },
{
    if a >= b {
        a
    } else {
        b
    }
}

/// Clipping keeps well-formed values unchanged and bounds everything else.
pub proof fn lemma_fx_clip(x: int)
    ensures
        fx_wf(fx_clip(x)),
        fx_wf(x) ==> fx_clip(x) == x,
{
}

/// Ceiling division of an `i128` by a nonzero `i128`.
pub fn ceil_div_i128(x: i128, d: i128) -> (r: i128)
    requires
        d != 0,
        -0x4000_0000_0000_0000_0000_0000_0000_0000 <= x
            <= 0x4000_0000_0000_0000_0000_0000_0000_0000,
        -0x4000_0000_0000_0000_0000_0000_0000_0000 <= d
            <= 0x4000_0000_0000_0000_0000_0000_0000_0000,
    ensures
        r as int == cl(x as int, d as int),
        -0x4000_0000_0000_0000_0000_0000_0000_0000 <= r
            <= 0x4000_0000_0000_0000_0000_0000_0000_0001,
{
    let f = floor_div_i128(-x, d);
    -f
}

/// The defining inequalities of ceiling division by a positive divisor.
pub proof fn lemma_cl_bounds(x: int, d: int)
    requires
        d > 0,
    ensures
        d * (cl(x, d) - 1) < x <= d * cl(x, d),
{
    lemma_flr_bounds(-x, d);
    let f = flr(-x, d);
    assert(d * (-f) == -(d * f) && d * (-f - 1) == -(d * f) - d && d * (f + 1) == d * f + d)
        by (nonlinear_arith);
}

/// For a positive divisor, `T * d >= a` exactly when `T >= cl(a, d)`.
pub proof fn lemma_mul_ge_iff_cl(t: int, d: int, a: int)
    requires
        d > 0,
    ensures
        t * d >= a <==> t >= cl(a, d),
{
    lemma_cl_bounds(a, d);
    let c = cl(a, d);
    if t >= c {
        assert(t * d >= c * d) by (nonlinear_arith)
            requires
                t >= c,
                d > 0,
        ;
        assert(c * d == d * c) by (nonlinear_arith);
    }
    if t <= c - 1 {
        assert(t * d <= (c - 1) * d) by (nonlinear_arith)
            requires
                t <= c - 1,
                d > 0,
        ;
        assert((c - 1) * d == d * (c - 1)) by (nonlinear_arith);
    }
}

/// For a negative divisor, `T * d >= a` exactly when `T <= flr(a, d)`.
pub proof fn lemma_mul_ge_iff_flr(t: int, d: int, a: int)
    requires
        d < 0,
    ensures
        t * d >= a <==> t <= flr(a, d),
{
    lemma_flr_bounds(-a, -d);
    let f = flr(a, d);
    assert(f == (-a) / (-d));
    assert((-d) * f <= -a < (-d) * (f + 1));
    assert(d * f >= a && a > d * f + d) by (nonlinear_arith)
        requires
            (-d) * f <= -a,
            -a < (-d) * (f + 1),
    ;
    if t <= f {
        assert(t * d >= f * d) by (nonlinear_arith)
            requires
                t <= f,
                d < 0,
        ;
        assert(f * d == d * f) by (nonlinear_arith);
    }
    if t >= f + 1 {
        assert(t * d <= (f + 1) * d) by (nonlinear_arith)
            requires
                t >= f + 1,
                d < 0,
        ;
        assert((f + 1) * d == d * f + d) by (nonlinear_arith);
    }
}

/// Floor division by a positive divisor is monotone in the dividend.
pub proof fn lemma_flr_monotone(x: int, y: int, d: int)
    requires
        d > 0,
        x <= y,
    ensures
        flr(x, d) <= flr(y, d),
{
    lemma_flr_bounds(x, d);
    lemma_flr_bounds(y, d);
    let fx = flr(x, d);
    let fy = flr(y, d);
    if fx > fy {
        assert(d * (fy + 1) <= d * fx) by (nonlinear_arith)
            requires
                fy + 1 <= fx,
                d > 0,
        ;
    }
}

/// Fixed-point multiplication is monotone on nonnegative operands.
pub proof fn lemma_fx_mul_monotone(a: int, b: int, a2: int, b2: int)
    requires
        0 <= a <= a2,
        0 <= b <= b2,
    ensures
        0 <= fx_mul_spec(a, b) <= fx_mul_spec(a2, b2),
{
    assert(0 <= a * b <= a2 * b2) by (nonlinear_arith)
        requires
            0 <= a <= a2,
            0 <= b <= b2,
    ;
    lemma_flr_monotone(a * b, a2 * b2, SCALE as int);
    lemma_flr_bounds(a * b, SCALE as int);
}

/// Multiplying by a factor of magnitude at most one never grows the
/// other operand's magnitude.
pub proof fn lemma_fx_mul_contract(a: int, b: int)
    requires
        -SCALE <= b <= SCALE,
    ensures
        a >= 0 ==> -a <= fx_mul_spec(a, b) <= a,
        a < 0 ==> a <= fx_mul_spec(a, b) <= -a,
{
    assert(-(a * SCALE) <= a * b <= a * SCALE || -(a * SCALE) >= a * b >= a * SCALE)
        by (nonlinear_arith)
        requires
            -SCALE <= b <= SCALE,
    ;
    lemma_flr_bounds(a * b, SCALE as int);
    assert(SCALE * a == a * SCALE && SCALE * (-a) == -(a * SCALE)) by (nonlinear_arith);
    if a >= 0 {
        lemma_flr_unique_bound(a * b, -a, a);
    } else {
        lemma_flr_unique_bound(a * b, a, -a);
    }
}

/// If `lo * SCALE <= x <= hi * SCALE` then the scaled-down floor stays in
/// `[lo, hi]`.
proof fn lemma_flr_unique_bound(x: int, lo: int, hi: int)
    requires
        SCALE * lo <= x <= SCALE * hi,
    ensures
        lo <= flr(x, SCALE as int) <= hi,
{
    lemma_flr_bounds(x, SCALE as int);
    let f = flr(x, SCALE as int);
    if f < lo {
        assert(SCALE * (f + 1) <= SCALE * lo) by (nonlinear_arith)
            requires
                f + 1 <= lo,
        ;
    }
    if f > hi {
        assert(SCALE * f >= SCALE * (hi + 1)) by (nonlinear_arith)
            requires
                f >= hi + 1,
        ;
        assert(SCALE * (hi + 1) == SCALE * hi + SCALE) by (nonlinear_arith);
    }
}

/// Multiplying by exactly one world unit is the identity (up to clipping).
pub proof fn lemma_fx_mul_scale(d: int)
    ensures
        fx_mul_spec(SCALE as int, d) == fx_clip(d),
{
    assert(SCALE * (d + 1) == SCALE * d + SCALE) by (nonlinear_arith);
    lemma_flr_unique(SCALE * d, SCALE as int, d);
}

/// Multiplying two values of at most one world unit in magnitude stays
/// within one world unit; products of nonnegative factors are nonnegative.
pub proof fn lemma_fx_mul_unit(a: int, b: int)
    requires
        -SCALE <= a <= SCALE,
        -SCALE <= b <= SCALE,
    ensures
        -SCALE <= fx_mul_spec(a, b) <= SCALE,
        0 <= a && 0 <= b ==> 0 <= fx_mul_spec(a, b) <= if a <= b { a } else { b },
{
    let p = a * b;
    assert(-(65536 * 65536) <= p <= 65536 * 65536) by (nonlinear_arith)
        requires
            -65536 <= a <= 65536,
            -65536 <= b <= 65536,
            p == a * b,
    ;
    lemma_flr_bounds(p, SCALE as int);
    if 0 <= a && 0 <= b {
        let m = if a <= b { a } else { b };
        assert(0 <= p <= m * 65536) by (nonlinear_arith)
            requires
                0 <= a <= 65536,
                0 <= b <= 65536,
                m == if a <= b { a } else { b },
                p == a * b,
        ;
    }
}

} // verus!
