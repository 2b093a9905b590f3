//! Complex amplitudes over fixed-point scalars.

use vstd::prelude::*;
use crate::fixed::{
    fx_add, fx_add_s, fx_mul, fx_mul_s, fx_neg, fx_neg_s, fx_sqrt, fx_sub, fx_sub_s, is_isqrt,
    FX_ONE,
};

verus! {

/// A complex number with fixed-point real and imaginary parts.
#[derive(Clone, Copy, Debug, PartialEq, Eq, Structural)]
pub struct Complex {
    pub real: i64,
    pub imaginary: i64,
}

/// The model of complex addition: componentwise saturating addition.
pub open spec fn cx_add_s(a: Complex, b: Complex) -> Complex {
    Complex {
        real: fx_add_s(a.real as int, b.real as int) as i64,
        imaginary: fx_add_s(a.imaginary as int, b.imaginary as int) as i64,
    }
}

/// The model of complex subtraction.
pub open spec fn cx_sub_s(a: Complex, b: Complex) -> Complex {
    Complex {
        real: fx_sub_s(a.real as int, b.real as int) as i64,
        imaginary: fx_sub_s(a.imaginary as int, b.imaginary as int) as i64,
    }
}

/// The model of complex multiplication:
/// `(a + bi)(c + di) = (ac − bd) + (ad + bc)i` over the fixed-point scalars.
pub open spec fn cx_mul_s(a: Complex, b: Complex) -> Complex {
    Complex {
        real: fx_sub_s(
            fx_mul_s(a.real as int, b.real as int),
            fx_mul_s(a.imaginary as int, b.imaginary as int),
        ) as i64,
        imaginary: fx_add_s(
            fx_mul_s(a.real as int, b.imaginary as int),
            fx_mul_s(a.imaginary as int, b.real as int),
        ) as i64,
    }
}

/// The model of complex conjugation.  Negation saturates at the single
/// boundary value `i64::MIN` (there is no `-i64::MIN`), so conjugation is
/// an involution only away from that value; see
/// `lemma_conjugate_involution`.  Amplitudes in use never approach it:
/// the unit is 2^48 and the boundary sits at magnitude 2^15.
pub open spec fn cx_conj_s(a: Complex) -> Complex {
    Complex { real: a.real, imaginary: fx_neg_s(a.imaginary as int) as i64 }
}

/// The model of the squared magnitude `re² + im²`.
pub open spec fn cx_norm2_s(a: Complex) -> int {
    fx_add_s(
        fx_mul_s(a.real as int, a.real as int),
        fx_mul_s(a.imaginary as int, a.imaginary as int),
    )
}

/// The additive identity.
pub open spec fn cx_zero() -> Complex {
    Complex { real: 0, imaginary: 0 }
}

/// The multiplicative identity (the fixed-point unit).
pub open spec fn cx_one() -> Complex {
    Complex { real: FX_ONE, imaginary: 0 }
}

impl Complex {
    /// Build an amplitude from its fixed-point parts.
    pub fn new(re: i64, im: i64) -> (r: Complex)
        ensures
            r.real == re && r.imaginary == im,
    {
        Complex { real: re, imaginary: im }
    }

    /// The amplitude 0.
    pub fn zero() -> (r: Complex)
        ensures
            r == cx_zero(),
    {
        Complex { real: 0, imaginary: 0 }
    }

    /// The amplitude 1.
    pub fn one() -> (r: Complex)
        ensures
            r == cx_one(),
    {
        Complex { real: FX_ONE, imaginary: 0 }
    }

    /// Complex addition.
    pub fn add(self, other: Complex) -> (r: Complex)
        ensures
            r == cx_add_s(self, other),
    {
        Complex {
            real: fx_add(self.real, other.real),
            imaginary: fx_add(self.imaginary, other.imaginary),
        }
    }

    /// Complex subtraction.
    pub fn sub(self, other: Complex) -> (r: Complex)
        ensures
            r == cx_sub_s(self, other),
    {
        Complex {
            real: fx_sub(self.real, other.real),
            imaginary: fx_sub(self.imaginary, other.imaginary),
        }
    }

    /// Complex multiplication.
    pub fn mul(self, other: Complex) -> (r: Complex)
        ensures
            r == cx_mul_s(self, other),
    {
        Complex {
            real: fx_sub(
                fx_mul(self.real, other.real),
                fx_mul(self.imaginary, other.imaginary),
            ),
            imaginary: fx_add(
                fx_mul(self.real, other.imaginary),
                fx_mul(self.imaginary, other.real),
            ),
        }
    }

    /// Complex negation.
    pub fn neg(self) -> (r: Complex)
        ensures
            r.real as int == fx_neg_s(self.real as int),
            r.imaginary as int == fx_neg_s(self.imaginary as int),
    {
        Complex { real: fx_neg(self.real), imaginary: fx_neg(self.imaginary) }
    }

    /// The conjugate, as a fresh value.  At `imaginary == i64::MIN` the
    /// negation saturates; everywhere else conjugation is an involution
    /// and preserves the magnitude (`lemma_conjugate_involution`,
    /// `lemma_conjugate_norm2`).
    pub fn get_conjugate(&self) -> (r: Complex)
        ensures
            r == cx_conj_s(*self),
    {
        Complex { real: self.real, imaginary: fx_neg(self.imaginary) }
    }

    /// Conjugate in place; the same saturating boundary as
    /// `get_conjugate` applies.
    pub fn conjugate(&mut self)
        ensures
            *final(self) == cx_conj_s(*old(self)),
    {
        self.imaginary = fx_neg(self.imaginary);
    }

    /// The squared magnitude `re² + im²`.
    pub fn norm2(&self) -> (r: i64)
        ensures
            r as int == cx_norm2_s(*self),
            0 <= r,
    {
        proof {
            lemma_square_nonneg(self.real as int);
            lemma_square_nonneg(self.imaginary as int);
        }
        fx_add(fx_mul(self.real, self.real), fx_mul(self.imaginary, self.imaginary))
    }

    /// The magnitude, as the fixed-point square root of `norm2`.  By
    /// `lemma_conjugate_norm2`, conjugation preserves it away from the
    /// `i64::MIN` boundary.
    pub fn abs(&self) -> (r: i64)
        ensures
            is_isqrt(cx_norm2_s(*self) * FX_ONE as int, r as int),
            0 <= r,
    {
        let n2 = self.norm2();
        fx_sqrt(n2)
    }

    /// Whether both parts are exactly zero.
    pub fn is_zero(&self) -> (r: bool)
        ensures
            r == (*self == cx_zero()),
    {
        self.real == 0 && self.imaginary == 0
    }
}

/// A fixed-point square is never negative.
proof fn lemma_square_nonneg(a: int)
    ensures
        0 <= fx_mul_s(a, a),
{
    assert(0 <= a * a) by (nonlinear_arith);
    assert(0 <= a * a / (FX_ONE as int)) by (nonlinear_arith)
        requires
            0 <= a * a,
    ;
}

/// Adding zero is the identity.
pub proof fn lemma_cx_add_zero(a: Complex)
    ensures
        cx_add_s(cx_zero(), a) == a,
        cx_add_s(a, cx_zero()) == a,
{
}

/// Multiplying by the zero amplitude gives zero, on either side.
pub proof fn lemma_cx_mul_zero(a: Complex)
    ensures
        cx_mul_s(cx_zero(), a) == cx_zero(),
        cx_mul_s(a, cx_zero()) == cx_zero(),
{
    assert(fx_mul_s(0, a.real as int) == 0) by {
        assert(0 * (a.real as int) == 0) by (nonlinear_arith);
    }
    assert(fx_mul_s(0, a.imaginary as int) == 0) by {
        assert(0 * (a.imaginary as int) == 0) by (nonlinear_arith);
    }
    assert(fx_mul_s(a.real as int, 0) == 0) by {
        assert((a.real as int) * 0 == 0) by (nonlinear_arith);
    }
    assert(fx_mul_s(a.imaginary as int, 0) == 0) by {
        assert((a.imaginary as int) * 0 == 0) by (nonlinear_arith);
    }
}


/// Complex multiplication is commutative.
pub proof fn lemma_cx_mul_comm(a: Complex, b: Complex)
    ensures
        cx_mul_s(a, b) == cx_mul_s(b, a),
{
    assert((a.real as int) * (b.real as int) == (b.real as int) * (a.real as int))
        by (nonlinear_arith);
    assert((a.imaginary as int) * (b.imaginary as int) == (b.imaginary as int) * (
    a.imaginary as int)) by (nonlinear_arith);
    assert((a.real as int) * (b.imaginary as int) == (b.imaginary as int) * (a.real as int))
        by (nonlinear_arith);
    assert((a.imaginary as int) * (b.real as int) == (b.real as int) * (a.imaginary as int))
        by (nonlinear_arith);
}


/// Conjugation is an involution away from the saturating boundary: for
/// every amplitude whose imaginary part is not `i64::MIN`, conjugating
/// twice restores the value.  At `imaginary == i64::MIN` the negation
/// saturates and the law fails; that is the one excluded input.
pub proof fn lemma_conjugate_involution(a: Complex)
    requires
        a.imaginary > i64::MIN,
    ensures
        cx_conj_s(cx_conj_s(a)) == a,
{
}

/// Conjugation preserves the squared magnitude away from the saturating
/// boundary, and with it the magnitude `abs` computes.
pub proof fn lemma_conjugate_norm2(a: Complex)
    requires
        a.imaginary > i64::MIN,
    ensures
        cx_norm2_s(cx_conj_s(a)) == cx_norm2_s(a),
{
    let im = a.imaginary as int;
    assert((-im) * (-im) == im * im) by (nonlinear_arith);
}

} // verus!
