//! Exact integer helpers: flooring division and scaling by a ratio.

use vstd::prelude::*;
use vstd::arithmetic::div_mod::{lemma_fundamental_div_mod, lemma_fundamental_div_mod_converse};

verus! {

/// Largest magnitude of a value that `scale` multiplies.
pub const SCALE_VALUE_LIMIT: i128 = 0x2_0000_0000_0000_0000;

/// Largest magnitude of a numerator that `scale` multiplies by.
pub const SCALE_RATIO_LIMIT: i128 = 0x1000_0000_0000_0000;

/// Whether `v` can be held in an `i64`.
pub open spec fn fits_i64(v: int) -> bool {
    i64::MIN <= v <= i64::MAX
}

/// `v` times the ratio `num / den`, rounded down.
pub open spec fn spec_scale(v: int, num: int, den: int) -> int {
    (v * num) / den
}

/// Flooring division of a negative number, in terms of the division of a
/// non-negative one.
pub proof fn lemma_div_floor_negative(a: int, b: int)
    requires
        a < 0,
        b > 0,
    ensures
        a / b == -((-a - 1) / b) - 1,
{
    let q = (-a - 1) / b;
    let r = (-a - 1) % b;
    lemma_fundamental_div_mod(-a - 1, b);
    assert(a == (-q - 1) * b + (b - 1 - r)) by (nonlinear_arith)
        requires
            -a - 1 == b * q + r,
    ;
    lemma_fundamental_div_mod_converse(a, b, -q - 1, b - 1 - r);
}

/// A ratio of a multiple is the multiple of the ratio where the divisor
/// goes into the factor.
pub proof fn lemma_scale_whole(v: int, k: int, den: int)
    requires
        den > 0,
    ensures
        spec_scale(v, k * den, den) == v * k,
        spec_scale(v, 0, den) == 0,
{
    assert(v * (k * den) == (v * k) * den) by (nonlinear_arith);
    lemma_fundamental_div_mod_converse((v * k) * den, den, v * k, 0);
    assert(v * 0 == 0);
    lemma_fundamental_div_mod_converse(0, den, 0, 0);
}

/// Scaling keeps a value between zero and itself when the ratio is between
/// zero and one.
pub proof fn lemma_scale_between(v: int, num: int, den: int)
    requires
        0 <= num <= den,
        den > 0,
    ensures
        v >= 0 ==> 0 <= spec_scale(v, num, den) <= v,
        v <= 0 ==> v <= spec_scale(v, num, den) <= 0,
{
    let q = (v * num) / den;
    let r = (v * num) % den;
    lemma_fundamental_div_mod(v * num, den);
    if v >= 0 {
        assert(0 <= v * num <= v * den) by (nonlinear_arith)
            requires
                0 <= num <= den,
                v >= 0,
        ;
        assert(0 <= q <= v) by (nonlinear_arith)
            requires
                0 <= v * num <= v * den,
                v * num == den * q + r,
                0 <= r < den,
                den > 0,
        ;
    } else {
        assert(v * den <= v * num <= 0) by (nonlinear_arith)
            requires
                0 <= num <= den,
                v <= 0,
        ;
        assert(v <= q <= 0) by (nonlinear_arith)
            requires
                v * den <= v * num <= 0,
                v * num == den * q + r,
                0 <= r < den,
                den > 0,
        ;
    }
}

/// A flooring quotient by a positive divisor lies between zero and the
/// dividend.
pub proof fn lemma_div_floor_bounds(n: int, den: int)
    requires
        den > 0,
    ensures
        n >= 0 ==> 0 <= n / den <= n,
        n <= 0 ==> n <= n / den <= 0,
{
    let q = n / den;
    let r = n % den;
    lemma_fundamental_div_mod(n, den);
    assert((n >= 0 ==> 0 <= q <= n) && (n <= 0 ==> n <= q <= 0)) by (nonlinear_arith)
        requires
            n == den * q + r,
            0 <= r < den,
            den > 0,
    ;
}

/// A flooring quotient of a non-negative dividend that is at most `b`
/// divisors lies between zero and `b`.
pub proof fn lemma_quotient_bounded(n: int, d: int, b: int)
    requires
        d > 0,
        0 <= n <= b * d,
    ensures
        0 <= n / d <= b,
{
    let q = n / d;
    let r = n % d;
    lemma_fundamental_div_mod(n, d);
    assert(0 <= q <= b) by (nonlinear_arith)
        requires
            n == d * q + r,
            0 <= r < d,
            d > 0,
            0 <= n <= b * d,
    ;
}

/// A product of two bounded non-negative factors is bounded by the product
/// of the bounds.
pub proof fn lemma_mul_bounded(a: int, b: int, a_max: int, b_max: int)
    requires
        0 <= a <= a_max,
        0 <= b <= b_max,
    ensures
        0 <= a * b <= a_max * b_max,
{
    assert(0 <= a * b <= a_max * b_max) by (nonlinear_arith)
        requires
            0 <= a <= a_max,
            0 <= b <= b_max,
    ;
}

/// Division rounded toward negative infinity.
pub fn div_floor(a: i128, b: i128) -> (q: i128)
    requires
        b > 0,
    ensures
        q == a / b,
{
    if a >= 0 {
        a / b
    } else {
        let q0 = (-(a + 1)) / b;
        proof {
            lemma_div_floor_negative(a as int, b as int);
        }
        -q0 - 1
    }
}

/// `v` times the ratio `num / den`, rounded down.
pub fn scale(v: i128, num: i128, den: i128) -> (r: i128)
    requires
        -SCALE_VALUE_LIMIT <= v <= SCALE_VALUE_LIMIT,
        -SCALE_RATIO_LIMIT <= num <= SCALE_RATIO_LIMIT,
        den > 0,
    ensures
        r == spec_scale(v as int, num as int, den as int),
        -0x2000_0000_0000_0000_0000_0000_0000_0000 <= r <= 0x2000_0000_0000_0000_0000_0000_0000_0000,
{
    proof {
        lemma_div_floor_bounds(v * num, den as int);
    }
    assert(-0x2000_0000_0000_0000_0000_0000_0000_0000 <= v * num
        <= 0x2000_0000_0000_0000_0000_0000_0000_0000) by (nonlinear_arith)
        requires
            -0x2_0000_0000_0000_0000 <= v <= 0x2_0000_0000_0000_0000,
            -0x1000_0000_0000_0000 <= num <= 0x1000_0000_0000_0000,
    ;
    div_floor(v * num, den)
}

} // verus!
