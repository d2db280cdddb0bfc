//! Q16.16 fixed-point scalar arithmetic.
//!
//! Every coordinate, depth and matrix entry in the renderer is an `i64`
//! holding a real number scaled by `FX_ONE`. All operations are total:
//! results that would leave the `i64` range saturate, and division by zero
//! yields zero, so no pipeline stage can panic on degenerate geometry.
use vstd::prelude::*;

verus! {

/// Number of fixed-point steps per unit.
pub const FX_ONE: i64 = 65536;

/// Pi scaled by `FX_ONE`, rounded to the nearest step.
pub const FX_PI: i64 = 205887;

/// Pi/2 scaled by `FX_ONE`, rounded to the nearest step.
pub const FX_HALF_PI: i64 = 102944;

/// 2*Pi scaled by `FX_ONE`, rounded to the nearest step.
pub const FX_TWO_PI: i64 = 411775;

/// Saturates a mathematical integer into the `i64` range.
pub open spec fn sat64(x: int) -> int {
    if x > i64::MAX as int {
        i64::MAX as int
    } else if x < i64::MIN as int {
        i64::MIN as int
    } else {
        x
    }
}

/// Division truncating toward zero, with quotient zero for divisor zero.
pub open spec fn tdiv(p: int, q: int) -> int {
    if q == 0 {
        0
    } else if (p >= 0) == (q >= 0) {
        abs_i(p) / abs_i(q)
    } else {
        -(abs_i(p) / abs_i(q))
    }
}

/// Absolute value of a mathematical integer.
pub open spec fn abs_i(x: int) -> int {
    if x >= 0 {
        x
    } else {
        -x
    }
}

/// Fixed-point sum, saturating at the `i64` bounds.
pub open spec fn fx_add_s(a: int, b: int) -> int {
    sat64(a + b)
}

/// Fixed-point difference, saturating at the `i64` bounds.
pub open spec fn fx_sub_s(a: int, b: int) -> int {
    sat64(a - b)
}

/// Fixed-point negation, saturating at the `i64` bounds.
pub open spec fn fx_neg_s(a: int) -> int {
    sat64(-a)
}

/// Fixed-point product: the exact product rescaled by `FX_ONE`,
/// truncated toward zero and saturated.
pub open spec fn fx_mul_s(a: int, b: int) -> int {
    sat64(tdiv(a * b, FX_ONE as int))
}

/// Fixed-point quotient: the dividend rescaled by `FX_ONE`, truncated
/// toward zero and saturated; zero when the divisor is zero.
pub open spec fn fx_div_s(a: int, b: int) -> int {
    if b == 0 {
        0
    } else {
        sat64(tdiv(a * FX_ONE, b))
    }
}

/// Clamps `x` into `[lo, hi]`.
pub open spec fn clamp_s(x: int, lo: int, hi: int) -> int {
    if x < lo {
        lo
    } else if x > hi {
        hi
    } else {
        x
    }
}

/// Saturating fixed-point addition.
pub fn fx_add(a: i64, b: i64) -> (r: i64)
    ensures
        r as int == fx_add_s(a as int, b as int),
{
    let s: i128 = a as i128 + b as i128;
    if s > i64::MAX as i128 {
        i64::MAX
    } else if s < i64::MIN as i128 {
        i64::MIN
    } else {
        s as i64
    }
}

/// Saturating fixed-point subtraction.
pub fn fx_sub(a: i64, b: i64) -> (r: i64)
    ensures
        r as int == fx_sub_s(a as int, b as int),
{
    let s: i128 = a as i128 - b as i128;
    if s > i64::MAX as i128 {
        i64::MAX
    } else if s < i64::MIN as i128 {
        i64::MIN
    } else {
        s as i64
    }
}

/// Saturating fixed-point negation.
pub fn fx_neg(a: i64) -> (r: i64)
    ensures
        r as int == fx_neg_s(a as int),
{
    if a == i64::MIN {
        i64::MAX
    } else {
        -a
    }
}

/// Saturates a signed 128-bit value into the `i64` range.
pub fn sat_i128(x: i128) -> (r: i64)
    ensures
        r as int == sat64(x as int),
{
    if x > i64::MAX as i128 {
        i64::MAX
    } else if x < i64::MIN as i128 {
        i64::MIN
    } else {
        x as i64
    }
}

/// Truncating division of a signed 128-bit value by a positive divisor,
/// computed over magnitudes so the result is exact for every input.
fn tdiv_i128(p: i128, q: u128) -> (r: i128)
    requires
        0 < q <= u64::MAX as u128,
        -85070591730234615865843651857942052864i128 <= p
            <= 85070591730234615865843651857942052864i128,
    ensures
        r as int == tdiv(p as int, q as int),
{
    if p >= 0 {
        let m: u128 = p as u128;
        let d: u128 = m / q;
        assert(d <= m) by {
            vstd::arithmetic::div_mod::lemma_div_is_ordered_by_denominator(m as int, 1, q as int);
        }
        d as i128
    } else {
        let m: u128 = (-p) as u128;
        let d: u128 = m / q;
        assert(d <= m) by {
            vstd::arithmetic::div_mod::lemma_div_is_ordered_by_denominator(m as int, 1, q as int);
        }
        -(d as i128)
    }
}

/// Saturating fixed-point multiplication.
pub fn fx_mul(a: i64, b: i64) -> (r: i64)
    ensures
        r as int == fx_mul_s(a as int, b as int),
{
    proof {
        assert((a as int) * (b as int) <= 85070591730234615865843651857942052864
            && -85070591730234615865843651857942052864 <= (a as int) * (b as int))
            by (nonlinear_arith)
            requires
                i64::MIN <= a <= i64::MAX,
                i64::MIN <= b <= i64::MAX,
        ;
    }
    let p: i128 = (a as i128) * (b as i128);
    let q: i128 = tdiv_i128(p, 65536);
    sat_i128(q)
}

/// Saturating fixed-point division; zero when the divisor is zero.
pub fn fx_div(a: i64, b: i64) -> (r: i64)
    ensures
        r as int == fx_div_s(a as int, b as int),
{
    if b == 0 {
        return 0;
    }
    let p: i128 = (a as i128) * 65536;
    let qm: u128 = if b >= 0 {
        b as u128
    } else {
        (-(b as i128)) as u128
    };
    let d: i128 = tdiv_i128(p, qm);
    let q: i128 = if b >= 0 {
        d
    } else {
        -d
    };
    assert(q as int == tdiv(a as int * FX_ONE as int, b as int));
    sat_i128(q)
}

/// Floor of the square root of a non-negative integer, by the classical
/// digit recurrence on base-4 digits.
pub open spec fn isqrt_s(n: int) -> int
    decreases n,
{
    if n < 1 {
        0
    } else {
        let h = isqrt_s(n / 4);
        if (2 * h + 1) * (2 * h + 1) <= n {
            2 * h + 1
        } else {
            2 * h
        }
    }
}

/// `isqrt_s` is the floor of the square root: it is the unique
/// non-negative `r` with `r * r <= n < (r + 1) * (r + 1)`.
pub proof fn lemma_isqrt_bounds(n: int)
    requires
        n >= 0,
    ensures
        isqrt_s(n) >= 0,
        isqrt_s(n) * isqrt_s(n) <= n,
        n < (isqrt_s(n) + 1) * (isqrt_s(n) + 1),
    decreases n,
{
    if n < 1 {
    } else {
        lemma_isqrt_bounds(n / 4);
        let h = isqrt_s(n / 4);
        assert(4 * (n / 4) <= n < 4 * (n / 4) + 4) by {
            vstd::arithmetic::div_mod::lemma_fundamental_div_mod(n, 4);
            vstd::arithmetic::div_mod::lemma_mod_bound(n, 4);
        }
        assert((2 * h) * (2 * h) <= n) by (nonlinear_arith)
            requires
                h * h <= n / 4,
                4 * (n / 4) <= n,
        ;
        assert(n < (2 * h + 2) * (2 * h + 2)) by (nonlinear_arith)
            requires
                n / 4 < (h + 1) * (h + 1),
                n < 4 * (n / 4) + 4,
        ;
    }
}

/// Fixed-point square root: `isqrt_s` of the operand rescaled so that the
/// result is again in fixed-point form; zero for non-positive operands.
pub open spec fn fx_sqrt_s(a: int) -> int {
    if a <= 0 {
        0
    } else {
        isqrt_s(a * FX_ONE as int)
    }
}

/// Floor of the square root of `n`, for operands below 2^100.
fn isqrt(n: u128) -> (r: u128)
    requires
        n < 1267650600228229401496703205376u128,  // 2^100
    ensures
        r as int == isqrt_s(n as int),
    decreases n as int,
{
    if n < 1 {
        0
    } else {
        let h: u128 = isqrt(n / 4);
        proof {
            lemma_isqrt_bounds(n as int / 4);
            assert(4 * ((n as int) / 4) <= n as int) by {
                vstd::arithmetic::div_mod::lemma_fundamental_div_mod(n as int, 4);
                vstd::arithmetic::div_mod::lemma_mod_bound(n as int, 4);
            }
            assert(h as int * (h as int) <= n as int) by (nonlinear_arith)
                requires
                    (h as int) * (h as int) <= (n as int) / 4,
                    4 * ((n as int) / 4) <= n as int,
            ;
            assert(h < 1125899906842624u128) by (nonlinear_arith)  // 2^50
                requires
                    (h as int) * (h as int) <= n as int,
                    0 <= h,
                    n < 1267650600228229401496703205376u128,
            ;
        }
        let c: u128 = 2 * h + 1;
        proof {
            assert((c as int) * (c as int) <= u128::MAX as int) by (nonlinear_arith)
                requires
                    0 <= c,
                    c as int <= 2251799813685249int,  // 2^51 + 1
            ;
        }
        if c * c <= n {
            c
        } else {
            2 * h
        }
    }
}

/// Saturating fixed-point square root; zero for non-positive operands.
pub fn fx_sqrt(a: i64) -> (r: i64)
    ensures
        r as int == fx_sqrt_s(a as int),
        r >= 0,
{
    if a <= 0 {
        return 0;
    }
    let n: u128 = (a as u128) * 65536;
    let r: u128 = isqrt(n);
    proof {
        lemma_isqrt_bounds(n as int);
        assert(r as int <= 1099511627776) by (nonlinear_arith)  // 2^40
            requires
                (r as int) * (r as int) <= n as int,
                0 <= r,
                n as int <= (i64::MAX as int) * 65536,
        ;
    }
    r as i64
}

/// A fixed-point quotient of non-negative operands is non-negative.
pub proof fn lemma_fx_div_nonneg(a: int, b: int)
    requires
        a >= 0,
        b >= 0,
    ensures
        fx_div_s(a, b) >= 0,
{
    if b != 0 {
        assert(a * FX_ONE as int >= 0) by (nonlinear_arith)
            requires
                a >= 0,
        ;
        vstd::arithmetic::div_mod::lemma_div_pos_is_pos(a * FX_ONE as int, b);
    }
}

/// The library's sine on the first quadrant: a degree-7 Taylor polynomial
/// evaluated in fixed point, clamped into `[-FX_ONE, FX_ONE]`.
pub open spec fn sin_poly_s(r: int) -> int {
    let r2 = fx_mul_s(r, r);
    let r3 = fx_mul_s(r2, r);
    let r5 = fx_mul_s(r3, r2);
    let r7 = fx_mul_s(r5, r2);
    let t3 = fx_sub_s(r, tdiv(r3, 6));
    let t5 = fx_add_s(t3, tdiv(r5, 120));
    let t7 = fx_sub_s(t5, tdiv(r7, 5040));
    clamp_s(t7, -(FX_ONE as int), FX_ONE as int)
}

/// The library's sine on `[0, FX_PI]`, folded onto the first quadrant.
pub open spec fn sin_half_s(r: int) -> int {
    if r <= FX_HALF_PI as int {
        sin_poly_s(r)
    } else {
        sin_poly_s(FX_PI as int - r)
    }
}

/// The library's sine: the argument reduced into one turn, then folded
/// onto the first quadrant by the usual symmetries.
pub open spec fn fx_sin_s(x: int) -> int {
    let r = x % (FX_TWO_PI as int);
    if r <= FX_PI as int {
        sin_half_s(r)
    } else {
        -sin_half_s(r - FX_PI as int)
    }
}

/// The library's cosine: the sine a quarter turn ahead.
pub open spec fn fx_cos_s(x: int) -> int {
    fx_sin_s(fx_add_s(x, FX_HALF_PI as int))
}

/// Division of a non-negative value by a positive constant.
pub fn div_pos(a: i64, d: i64) -> (r: i64)
    requires
        a >= 0,
        d > 0,
    ensures
        r as int == tdiv(a as int, d as int),
        0 <= r <= a,
{
    proof {
        vstd::arithmetic::div_mod::lemma_div_is_ordered_by_denominator(a as int, 1, d as int);
        vstd::arithmetic::div_mod::lemma_div_pos_is_pos(a as int, d as int);
    }
    a / d
}

/// `fx_mul_s` of non-negative operands is non-negative.
proof fn lemma_fx_mul_nonneg(a: int, b: int)
    requires
        a >= 0,
        b >= 0,
    ensures
        fx_mul_s(a, b) >= 0,
{
    assert(a * b >= 0) by (nonlinear_arith)
        requires
            a >= 0,
            b >= 0,
    ;
    vstd::arithmetic::div_mod::lemma_div_pos_is_pos(a * b, FX_ONE as int);
}

/// The degree-7 sine polynomial on the first quadrant.
fn sin_poly(r: i64) -> (s: i64)
    requires
        0 <= r <= FX_HALF_PI,
    ensures
        s as int == sin_poly_s(r as int),
        -FX_ONE <= s <= FX_ONE,
{
    let r2 = fx_mul(r, r);
    proof {
        lemma_fx_mul_nonneg(r as int, r as int);
    }
    let r3 = fx_mul(r2, r);
    proof {
        lemma_fx_mul_nonneg(r2 as int, r as int);
    }
    let r5 = fx_mul(r3, r2);
    proof {
        lemma_fx_mul_nonneg(r3 as int, r2 as int);
    }
    let r7 = fx_mul(r5, r2);
    proof {
        lemma_fx_mul_nonneg(r5 as int, r2 as int);
    }
    let t3 = fx_sub(r, div_pos(r3, 6));
    let t5 = fx_add(t3, div_pos(r5, 120));
    let t7 = fx_sub(t5, div_pos(r7, 5040));
    fx_clamp(t7, -FX_ONE, FX_ONE)
}

/// Reduces an angle into `[0, FX_TWO_PI)` by the Euclidean remainder.
fn fx_mod_2pi(x: i64) -> (r: i64)
    ensures
        r as int == (x as int) % (FX_TWO_PI as int),
        0 <= r < FX_TWO_PI,
{
    if x >= 0 {
        let r = x % FX_TWO_PI;
        r
    } else {
        let m: i128 = -(x as i128);
        let k: i128 = m % (FX_TWO_PI as i128);
        proof {
            let d = FX_TWO_PI as int;
            vstd::arithmetic::div_mod::lemma_fundamental_div_mod(m as int, d);
            let q = (m as int) / d;
            assert(x as int == (-q) * d + (-(k as int))) by (nonlinear_arith)
                requires
                    m as int == q * d + k as int,
                    x as int == -(m as int),
            ;
            if k == 0 {
                vstd::arithmetic::div_mod::lemma_fundamental_div_mod_converse(
                    x as int, d, -q, 0);
            } else {
                assert(x as int == (-q - 1) * d + (d - k as int)) by (nonlinear_arith)
                    requires
                        x as int == (-q) * d + (-(k as int)),
                ;
                vstd::arithmetic::div_mod::lemma_fundamental_div_mod_converse(
                    x as int, d, -q - 1, d - k as int);
            }
        }
        if k == 0 {
            0
        } else {
            FX_TWO_PI - (k as i64)
        }
    }
}

/// The library's sine of a fixed-point angle in radians.
pub fn fx_sin(x: i64) -> (s: i64)
    ensures
        s as int == fx_sin_s(x as int),
        -FX_ONE <= s <= FX_ONE,
{
    let r = fx_mod_2pi(x);
    if r <= FX_PI {
        if r <= FX_HALF_PI {
            sin_poly(r)
        } else {
            sin_poly(FX_PI - r)
        }
    } else {
        let h = r - FX_PI;
        let s = if h <= FX_HALF_PI {
            sin_poly(h)
        } else {
            sin_poly(FX_PI - h)
        };
        -s
    }
}

/// The library's cosine of a fixed-point angle in radians.
pub fn fx_cos(x: i64) -> (s: i64)
    ensures
        s as int == fx_cos_s(x as int),
        -FX_ONE <= s <= FX_ONE,
{
    fx_sin(fx_add(x, FX_HALF_PI))
}

/// Clamps `x` into `[lo, hi]`; callers supply `lo <= hi`.
pub fn fx_clamp(x: i64, lo: i64, hi: i64) -> (r: i64)
    requires
        lo <= hi,
    ensures
        r as int == clamp_s(x as int, lo as int, hi as int),
{
    if x < lo {
        lo
    } else if x > hi {
        hi
    } else {
        x
    }
}

} // verus!
