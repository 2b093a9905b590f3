//! Fixed-point scalar arithmetic.
//!
//! A scalar is an `i64` holding its value scaled by `FX_ONE` = 2^48, so the
//! representable resolution is about 3.6e-15.  Addition and subtraction
//! saturate into the `i64` range; multiplication forms the exact 128-bit
//! product and divides by the unit, truncating toward zero.  The spec functions below are the
//! mathematical model that every contract of the crate is stated over.

use vstd::prelude::*;

verus! {

/// The fixed-point unit: the representation of 1.0, equal to 2^48.
pub const FX_ONE: i64 = 281474976710656;

/// The saturation bound: the largest representable magnitude.
pub const FX_MAX: i64 = 9223372036854775807;

/// Saturate an unbounded integer into the `i64` range.
pub open spec fn sat64(v: int) -> int {
    if v > FX_MAX {
        FX_MAX as int
    } else if v < i64::MIN {
        i64::MIN as int
    } else {
        v
    }
}

/// Division by the fixed-point unit, truncating toward zero.
pub open spec fn unit_div(v: int) -> int {
    if v >= 0 {
        v / (FX_ONE as int)
    } else {
        -((-v) / (FX_ONE as int))
    }
}

/// The model of fixed-point addition.
pub open spec fn fx_add_s(a: int, b: int) -> int {
    sat64(a + b)
}

/// The model of fixed-point subtraction.
pub open spec fn fx_sub_s(a: int, b: int) -> int {
    sat64(a - b)
}

/// The model of fixed-point negation.
pub open spec fn fx_neg_s(a: int) -> int {
    sat64(-a)
}

/// The model of fixed-point multiplication: exact product, then truncating
/// division by the unit, then saturation.
pub open spec fn fx_mul_s(a: int, b: int) -> int {
    sat64(unit_div(a * b))
}

/// `r` is the floor square root of `v`.
pub open spec fn is_isqrt(v: int, r: int) -> bool {
    0 <= r && r * r <= v < (r + 1) * (r + 1)
}

/// The fixed-point square root of `x`: the floor square root of
/// `x·FX_ONE`, which is again a fixed-point scalar.
pub open spec fn fx_sqrt_s(x: int) -> int {
    choose|r: int| #[trigger] is_isqrt(x * FX_ONE, r)
}

/// Floor square roots are unique.
pub proof fn lemma_isqrt_unique(v: int, a: int, b: int)
    requires
        is_isqrt(v, a),
        is_isqrt(v, b),
    ensures
        a == b,
{
    assert(!(a < b) && !(b < a)) by (nonlinear_arith)
        requires
            0 <= a && a * a <= v < (a + 1) * (a + 1),
            0 <= b && b * b <= v < (b + 1) * (b + 1),
    ;
}

/// Fixed-point addition, saturating into the `i64` range.
pub fn fx_add(a: i64, b: i64) -> (r: i64)
    ensures
        r as int == fx_add_s(a as int, b as int),
{
    let s: i128 = a as i128 + b as i128;
    if s > FX_MAX as i128 {
        FX_MAX
    } else if s < i64::MIN as i128 {
        i64::MIN
    } else {
        s as i64
    }
}

/// Fixed-point subtraction, saturating into the `i64` range.
pub fn fx_sub(a: i64, b: i64) -> (r: i64)
    ensures
        r as int == fx_sub_s(a as int, b as int),
{
    let s: i128 = a as i128 - b as i128;
    if s > FX_MAX as i128 {
        FX_MAX
    } else if s < i64::MIN as i128 {
        i64::MIN
    } else {
        s as i64
    }
}

/// Fixed-point negation; only `i64::MIN` saturates.
pub fn fx_neg(a: i64) -> (r: i64)
    ensures
        r as int == fx_neg_s(a as int),
{
    if a == i64::MIN {
        FX_MAX
    } else {
        -a
    }
}

/// Fixed-point multiplication: exact 128-bit product, truncated division by
/// the unit, saturation.
pub fn fx_mul(a: i64, b: i64) -> (r: i64)
    ensures
        r as int == fx_mul_s(a as int, b as int),
{
    proof {
        lemma_product_bound(a as int, b as int);
    }
    let p: i128 = (a as i128) * (b as i128);
    let q: i128 = if p >= 0 {
        ((p as u128) / (FX_ONE as u128)) as i128
    } else {
        -((((-p) as u128) / (FX_ONE as u128)) as i128)
    };
    proof {
        lemma_unit_div_shrinks(p as int);
    }
    if q > FX_MAX as i128 {
        FX_MAX
    } else if q < i64::MIN as i128 {
        i64::MIN
    } else {
        q as i64
    }
}

/// The product of two `i64` values fits in an `i128`.
proof fn lemma_product_bound(a: int, b: int)
    requires
        i64::MIN <= a <= i64::MAX,
        i64::MIN <= b <= i64::MAX,
    ensures
        -(i128::MAX as int) < a * b <= i128::MAX,
{
    assert(-(i128::MAX as int) < a * b <= i128::MAX) by (nonlinear_arith)
        requires
            -0x8000_0000_0000_0000 <= a <= 0x7fff_ffff_ffff_ffff,
            -0x8000_0000_0000_0000 <= b <= 0x7fff_ffff_ffff_ffff,
    ;
}

/// Truncating division by the positive unit does not grow the magnitude.
proof fn lemma_unit_div_shrinks(v: int)
    ensures
        v >= 0 ==> 0 <= unit_div(v) <= v,
        v < 0 ==> v <= unit_div(v) <= 0,
{
    if v >= 0 {
        assert(0 <= v / (FX_ONE as int) <= v) by (nonlinear_arith)
            requires
                v >= 0,
        ;
    } else {
        assert(0 <= (-v) / (FX_ONE as int) <= -v) by (nonlinear_arith)
            requires
                v < 0,
        ;
    }
}

/// Floor square root of a non-negative 128-bit value below 2^112,
/// by bisection.
pub fn isqrt_u128(v: u128) -> (r: u128)
    requires
        v < 0x1_0000_0000_0000_0000_0000_0000_0000,
    ensures
        is_isqrt(v as int, r as int),
        r < 0x100_0000_0000_0000,
{
    let mut lo: u128 = 0;
    let mut hi: u128 = 0x100_0000_0000_0000;
    proof {
        assert((0x100_0000_0000_0000 as int) * (0x100_0000_0000_0000 as int)
            == 0x1_0000_0000_0000_0000_0000_0000_0000) by (nonlinear_arith);
    }
    while lo + 1 < hi
        invariant
            lo < hi <= 0x100_0000_0000_0000,
            (lo as int) * (lo as int) <= v as int,
            (v as int) < (hi as int) * (hi as int),
        decreases hi - lo,
    {
        let mid: u128 = lo + (hi - lo) / 2;
        proof {
            assert((mid as int) * (mid as int) < 0x1_0000_0000_0000_0000_0000_0000_0000_0000)
                by (nonlinear_arith)
                requires
                    0 <= mid as int <= 0x100_0000_0000_0000,
            ;
        }
        if mid * mid <= v {
            lo = mid;
        } else {
            hi = mid;
        }
    }
    lo
}

/// Fixed-point square root: the floor square root of `x` rescaled so the
/// result is again a fixed-point scalar.  Exact characterisation: the result
/// `r` satisfies `r² ≤ x·FX_ONE < (r+1)²`.
pub fn fx_sqrt(x: i64) -> (r: i64)
    requires
        0 <= x,
    ensures
        is_isqrt(x as int * FX_ONE as int, r as int),
        r as int == fx_sqrt_s(x as int),
        0 <= r,
{
    proof {
        assert((x as int) * (FX_ONE as int) < 0x1_0000_0000_0000_0000_0000_0000_0000)
            by (nonlinear_arith)
            requires
                0 <= x,
                (x as int) < 0x8000_0000_0000_0000,
        ;
    }
    let n: u128 = (x as u128) * (FX_ONE as u128);
    let r: u128 = isqrt_u128(n);
    proof {
        assert(is_isqrt(x as int * FX_ONE as int, fx_sqrt_s(x as int)));
        lemma_isqrt_unique(x as int * FX_ONE as int, r as int, fx_sqrt_s(x as int));
    }
    r as i64
}

} // verus!
