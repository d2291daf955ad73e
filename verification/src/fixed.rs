//! Fixed-point arithmetic shared by the pipeline stages.

use vstd::prelude::*;
use vstd::arithmetic::div_mod::{lemma_div_is_ordered, lemma_div_pos_is_pos};
use vstd::arithmetic::mul::{lemma_mul_inequality, lemma_mul_nonnegative, lemma_mul_is_commutative};

verus! {

/// One whole, in the unit that ratios are stored in (millionths).
pub const UNIT: u64 = 1_000_000;

/// `value` limited to the closed range `[lo, hi]`.
pub open spec fn clamp_int(value: int, lo: int, hi: int) -> int {
    if value < lo {
        lo
    } else if value > hi {
        hi
    } else {
        value
    }
}

/// The smaller of two integers.
pub open spec fn lesser(a: int, b: int) -> int {
    if a < b {
        a
    } else {
        b
    }
}

/// The larger of two integers.
pub open spec fn larger(a: int, b: int) -> int {
    if a > b {
        a
    } else {
        b
    }
}

/// `value` limited to what a `u64` can hold.
pub open spec fn saturate(value: int) -> int {
    clamp_int(value, 0, u64::MAX as int)
}

/// The share `part / whole` of `scale`, rounded down. Zero when `whole` is zero.
pub open spec fn scale_ratio(part: int, whole: int, scale: int) -> int {
    if whole > 0 {
        (part * scale) / whole
    } else {
        0
    }
}

/// A share of a non-negative scale lies between zero and the scale, as long
/// as the part does not exceed the whole.
pub proof fn lemma_scale_ratio_bounds(part: int, whole: int, scale: int)
    requires
        0 <= part <= whole,
        0 <= scale,
    ensures
        0 <= scale_ratio(part, whole, scale) <= scale,
        whole > 0 && part == whole ==> scale_ratio(part, whole, scale) == scale,
        whole > 0 && part == 0 ==> scale_ratio(part, whole, scale) == 0,
{
    if whole > 0 {
        lemma_mul_nonnegative(part, scale);
        lemma_div_pos_is_pos(part * scale, whole);
        lemma_mul_inequality(part, whole, scale);
        lemma_div_is_ordered(part * scale, whole * scale, whole);
        lemma_mul_is_commutative(whole, scale);
        vstd::arithmetic::div_mod::lemma_div_multiples_vanish(scale, whole);
        if part == 0 {
            assert(part * scale == 0) by (nonlinear_arith)
                requires
                    part == 0,
            ;
        }
    }
}

/// A larger part gives a share that is at least as large.
pub proof fn lemma_scale_ratio_monotonic(a: int, b: int, whole: int, scale: int)
    requires
        0 <= a <= b,
        0 <= scale,
    ensures
        scale_ratio(a, whole, scale) <= scale_ratio(b, whole, scale),
{
    if whole > 0 {
        lemma_mul_inequality(a, b, scale);
        lemma_div_is_ordered(a * scale, b * scale, whole);
    }
}

/// Computes `part * scale / whole`, rounded down, without intermediate overflow.
pub fn ratio_u64(part: u64, whole: u64, scale: u64) -> (r: u64)
    requires
        part <= whole,
    ensures
        r == scale_ratio(part as int, whole as int, scale as int),
        r <= scale,
{
    proof {
        lemma_scale_ratio_bounds(part as int, whole as int, scale as int);
    }
    if whole == 0 {
        return 0;
    }
    assert(part * scale <= u64::MAX * u64::MAX) by (nonlinear_arith)
        requires
            0 <= part <= u64::MAX,
            0 <= scale <= u64::MAX,
    ;
    let wide: u128 = (part as u128) * (scale as u128);
    let q: u128 = wide / (whole as u128);
    q as u64
}

/// Computes `part * scale / whole`, rounded down, for a wide part and whole.
pub fn ratio_u128(part: u128, whole: u128, scale: u64) -> (r: u64)
    requires
        part <= whole,
        whole * scale <= u128::MAX,
    ensures
        r == scale_ratio(part as int, whole as int, scale as int),
        r <= scale,
{
    proof {
        lemma_scale_ratio_bounds(part as int, whole as int, scale as int);
    }
    if whole == 0 {
        return 0;
    }
    assert(part * scale <= whole * scale) by (nonlinear_arith)
        requires
            0 <= part <= whole,
            0 <= scale,
    ;
    let q: u128 = (part * (scale as u128)) / whole;
    q as u64
}

/// Narrows a wide sum to `u64`, stopping at the largest value.
pub fn saturate_u128(value: u128) -> (r: u64)
    ensures
        r == saturate(value as int),
{
    if value > u64::MAX as u128 {
        u64::MAX
    } else {
        value as u64
    }
}

/// The quotient of `num` by a positive `den`, rounded toward zero.
pub open spec fn toward_zero(num: int, den: int) -> int {
    if num >= 0 {
        num / den
    } else {
        -((-num) / den)
    }
}

/// A quotient rounded toward zero is no larger in magnitude than its numerator.
pub proof fn lemma_toward_zero_bounds(num: int, den: int)
    requires
        den > 0,
    ensures
        num >= 0 ==> 0 <= toward_zero(num, den) <= num,
        num < 0 ==> num <= toward_zero(num, den) <= 0,
{
    if num >= 0 {
        lemma_div_pos_is_pos(num, den);
        vstd::arithmetic::div_mod::lemma_div_nonincreasing(num, den);
    } else {
        lemma_div_pos_is_pos(-num, den);
        vstd::arithmetic::div_mod::lemma_div_nonincreasing(-num, den);
    }
}

/// A quotient rounded toward zero grows with its numerator.
pub proof fn lemma_toward_zero_monotonic(a: int, b: int, den: int)
    requires
        den > 0,
        a <= b,
    ensures
        toward_zero(a, den) <= toward_zero(b, den),
{
    lemma_toward_zero_bounds(a, den);
    lemma_toward_zero_bounds(b, den);
    if a >= 0 {
        lemma_div_is_ordered(a, b, den);
    } else if b < 0 {
        lemma_div_is_ordered(-b, -a, den);
    }
}

/// Divides by a positive number, rounding toward zero.
pub fn divide_toward_zero(num: i128, den: u128) -> (r: i128)
    requires
        den > 0,
        -0x7FFF_FFFF_FFFF_FFFF_FFFF_FFFF_FFFF_FFFF <= num,
    ensures
        r == toward_zero(num as int, den as int),
        num >= 0 ==> 0 <= r <= num,
        num < 0 ==> num <= r <= 0,
{
    proof {
        lemma_toward_zero_bounds(num as int, den as int);
    }
    if num >= 0 {
        ((num as u128) / den) as i128
    } else {
        let q: u128 = ((-num) as u128) / den;
        -(q as i128)
    }
}

/// A product is bounded by the product of the bounds of its factors.
pub proof fn lemma_product_bounds(a: int, b: int, bound_a: int, bound_b: int)
    requires
        -bound_a <= a <= bound_a,
        -bound_b <= b <= bound_b,
    ensures
        -(bound_a * bound_b) <= a * b <= bound_a * bound_b,
{
    assert(-(bound_a * bound_b) <= a * b <= bound_a * bound_b) by (nonlinear_arith)
        requires
            -bound_a <= a <= bound_a,
            -bound_b <= b <= bound_b,
    ;
}

} // verus!
