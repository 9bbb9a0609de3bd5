//! Fixed-point scalars: integers that count millionths.

use vstd::prelude::*;

verus! {

/// The fixed-point representation of 1.
pub const UNIT: i64 = 1_000_000;

/// A point of the plane, in fixed-point coordinates.
#[derive(Clone, Copy, Debug, PartialEq, Eq, Structural)]
pub struct Point {
    pub x: i64,
    pub y: i64,
}

/// `x` limited to the closed interval from `lo` to `hi`.
pub open spec fn clamp(x: int, lo: int, hi: int) -> int {
    if x < lo {
        lo
    } else if x > hi {
        hi
    } else {
        x
    }
}

/// The product of two fixed-point numbers, rounded down.
pub open spec fn fixed_mul(a: int, b: int) -> int {
    (a * b) / (UNIT as int)
}

/// The product of two fixed-point numbers, rounded down and held within
/// what a machine integer can be.
pub open spec fn spec_scale(a: int, b: int) -> int {
    clamp(fixed_mul(a, b), i64::MIN as int, i64::MAX as int)
}

/// The byte that stands for the fraction `x`: 256 steps to the whole,
/// nothing below 0 and nothing above 255.
pub open spec fn spec_frac_to_byte(x: int) -> int {
    if x >= UNIT {
        255
    } else if x <= 0 {
        0
    } else {
        (x * 256) / (UNIT as int)
    }
}

/// A raw sample of the signed unit range carried into `[0, UNIT]`: scaled by
/// half the gain, centred on one half, and limited to the range.
pub open spec fn spec_normalize(x: int, gain: int) -> int {
    clamp((x * gain) / (2 * UNIT) + UNIT / 2, 0, UNIT as int)
}

/// Linear interpolation from `a` (at `t == 0`) to `b` (at `t == UNIT`).
pub open spec fn spec_lerp(a: int, b: int, t: int) -> int {
    (a * (UNIT - t) + b * t) / (UNIT as int)
}

/// Division that rounds toward negative infinity.
pub fn div_floor(a: i128, b: i128) -> (q: i128)
    requires
        b > 0,
    ensures
        q == a as int / b as int,
{
    if a >= 0 {
        a / b
    } else {
        let t: i128 = (a + 1) / b;
        proof {
            lemma_floor_of_negative(a as int, b as int);
        }
        t - 1
    }
}

/// For a negative numerator, rounding down is one less than rounding the
/// successor toward zero.
pub proof fn lemma_floor_of_negative(a: int, b: int)
    requires
        a < 0,
        b > 0,
    ensures
        a / b == -((-(a + 1)) / b) - 1,
{
    let n = -(a + 1);
    let q = n / b;
    let r = n % b;
    assert(n == b * q + r && 0 <= r < b) by {
        vstd::arithmetic::div_mod::lemma_fundamental_div_mod(n, b);
    }
    // a == -n - 1 == b * (-q - 1) + (b - 1 - r)
    assert(a == b * (-q - 1) + (b - 1 - r)) by (nonlinear_arith)
        requires
            n == b * q + r,
            a == -n - 1,
    ;
    vstd::arithmetic::div_mod::lemma_fundamental_div_mod_converse(a, b, -q - 1, b - 1 - r);
}

/// The exact product of two machine integers.
pub fn mul_wide(a: i64, b: i64) -> (p: i128)
    ensures
        p == a as int * b as int,
        -0x4000_0000_0000_0000_0000_0000_0000_0000 <= p
            <= 0x4000_0000_0000_0000_0000_0000_0000_0000,
{
    assert(-0x4000_0000_0000_0000_0000_0000_0000_0000 <= a as int * b as int
        <= 0x4000_0000_0000_0000_0000_0000_0000_0000) by (nonlinear_arith)
        requires
            -0x8000_0000_0000_0000 <= a as int <= 0x7fff_ffff_ffff_ffff,
            -0x8000_0000_0000_0000 <= b as int <= 0x7fff_ffff_ffff_ffff,
    ;
    (a as i128) * (b as i128)
}

/// `x` limited to `[lo, hi]`.
pub fn clamp_to(x: i128, lo: i64, hi: i64) -> (r: i64)
    requires
        lo <= hi,
    ensures
        r == clamp(x as int, lo as int, hi as int),
{
    if x < lo as i128 {
        lo
    } else if x > hi as i128 {
        hi
    } else {
        x as i64
    }
}

/// Multiplies two fixed-point numbers; a product too large for a machine
/// integer becomes the largest one of its sign.
pub fn scale(a: i64, b: i64) -> (r: i64)
    ensures
        r == spec_scale(a as int, b as int),
{
    let product: i128 = mul_wide(a, b);
    let q: i128 = div_floor(product, UNIT as i128);
    clamp_to(q, i64::MIN, i64::MAX)
}

/// Interpolates linearly from `a` to `b`.
pub fn lerp(a: i64, b: i64, t: i64) -> (r: i64)
    requires
        0 <= t <= UNIT,
    ensures
        r == spec_lerp(a as int, b as int, t as int),
        a <= b ==> a <= r <= b,
        b <= a ==> b <= r <= a,
{
    proof {
        lemma_lerp_between(a as int, b as int, t as int);
    }
    let low: i128 = mul_wide(a, UNIT - t);
    let high: i128 = mul_wide(b, t);
    let q: i128 = div_floor(low + high, UNIT as i128);
    q as i64
}

/// An interpolated value lies between the two ends.
pub proof fn lemma_lerp_between(a: int, b: int, t: int)
    requires
        0 <= t <= UNIT,
    ensures
        a <= b ==> a <= spec_lerp(a, b, t) <= b,
        b <= a ==> b <= spec_lerp(a, b, t) <= a,
{
    let u = UNIT as int;
    let n = a * (u - t) + b * t;
    if a <= b {
        assert(a * u <= n <= b * u) by (nonlinear_arith)
            requires
                n == a * (u - t) + b * t,
                0 <= t <= u,
                a <= b,
        ;
        lemma_div_between(n, u, a, b);
    }
    if b <= a {
        assert(b * u <= n <= a * u) by (nonlinear_arith)
            requires
                n == a * (u - t) + b * t,
                0 <= t <= u,
                b <= a,
        ;
        lemma_div_between(n, u, b, a);
    }
}

/// A numerator between two multiples of the divisor has its quotient
/// between the two factors.
pub proof fn lemma_div_between(n: int, d: int, lo: int, hi: int)
    requires
        d > 0,
        lo * d <= n <= hi * d,
    ensures
        lo <= n / d <= hi,
{
    vstd::arithmetic::div_mod::lemma_fundamental_div_mod(n, d);
    let q = n / d;
    let r = n % d;
    assert(lo <= q) by (nonlinear_arith)
        requires
            n == d * q + r,
            0 <= r < d,
            lo * d <= n,
            d > 0,
    ;
    assert(q <= hi) by (nonlinear_arith)
        requires
            n == d * q + r,
            0 <= r < d,
            n <= hi * d,
            d > 0,
    ;
}

/// Converts a fraction to a colour byte.
pub fn frac_to_byte(x: i64) -> (b: u8)
    ensures
        b == spec_frac_to_byte(x as int),
{
    if x >= UNIT {
        return 255;
    }
    if x <= 0 {
        return 0;
    }
    let scaled: i64 = x * 256;
    let q: i64 = scaled / UNIT;
    assert(q < 256) by (nonlinear_arith)
        requires
            q == (x * 256) / 1_000_000,
            0 < x < 1_000_000,
    ;
    q as u8
}

/// Carries a raw sample into `[0, UNIT]`.
pub fn normalize(x: i64, gain: i64) -> (r: i64)
    ensures
        r == spec_normalize(x as int, gain as int),
        0 <= r <= UNIT,
{
    let product: i128 = mul_wide(x, gain);
    let half: i128 = div_floor(product, 2 * (UNIT as i128));
    assert(-0x4000_0000_0000_0000_0000_0000_0000_0000 <= half
        <= 0x4000_0000_0000_0000_0000_0000_0000_0000) by (nonlinear_arith)
        requires
            half == product as int / 2_000_000,
            -0x4000_0000_0000_0000_0000_0000_0000_0000 <= product
                <= 0x4000_0000_0000_0000_0000_0000_0000_0000,
    ;
    clamp_to(half + (UNIT / 2) as i128, 0, UNIT)
}

} // verus!
