//! The element type of a matrix.
//!
//! A matrix holds one numeric kind at a time; the [`Scalar`] trait names that
//! kind and fixes, as spec-level functions, what its addition and
//! multiplication return. The row operations only ever combine entries
//! through this trait, so their contracts speak of `add_spec` and `mul_spec`
//! whatever the element type is.

use vstd::prelude::*;

verus! {

/// A numeric matrix element: copyable, with addition, multiplication, and
/// the constants zero and one.
///
/// Each implementation pins its arithmetic down with `add_spec` and
/// `mul_spec`, and must prove that its `one_spec` and `zero_spec` behave as
/// a multiplicative identity and annihilator; the row-scaling laws hold for
/// every element type through those obligations.
pub trait Scalar: Sized + Copy {
    /// What addition returns.
    spec fn add_spec(self, other: Self) -> Self;

    /// What multiplication returns.
    spec fn mul_spec(self, other: Self) -> Self;

    /// The additive identity, the value of every off-diagonal entry of an
    /// identity matrix.
    spec fn zero_spec() -> Self;

    /// The multiplicative identity, the value of every diagonal entry of an
    /// identity matrix.
    spec fn one_spec() -> Self;

    /// Adds two elements.
    fn add(self, other: Self) -> (r: Self)
        ensures
            r == self.add_spec(other),
    ;

    /// Multiplies two elements.
    fn mul(self, other: Self) -> (r: Self)
        ensures
            r == self.mul_spec(other),
    ;

    /// Returns the additive identity.
    fn zero() -> (r: Self)
        ensures
            r == Self::zero_spec(),
    ;

    /// Returns the multiplicative identity.
    fn one() -> (r: Self)
        ensures
            r == Self::one_spec(),
    ;

    /// Multiplying by one changes nothing.
    proof fn mul_one_is_identity(x: Self)
        ensures
            x.mul_spec(Self::one_spec()) == x,
    ;

    /// Multiplying by zero gives zero.
    proof fn mul_zero_is_zero(x: Self)
        ensures
            x.mul_spec(Self::zero_spec()) == Self::zero_spec(),
    ;
}

/// `i64` entries with saturating arithmetic: a sum or product that would
/// leave the representable range comes back clamped to `i64::MIN` or
/// `i64::MAX`, so an overlarge magnitude saturates rather than wraps around.
impl Scalar for i64 {
    open spec fn add_spec(self, other: i64) -> i64 {
        if self + other > i64::MAX {
            i64::MAX
        } else if self + other < i64::MIN {
            i64::MIN
        } else {
            (self + other) as i64
        }
    }

    open spec fn mul_spec(self, other: i64) -> i64 {
        if self * other > i64::MAX {
            i64::MAX
        } else if self * other < i64::MIN {
            i64::MIN
        } else {
            (self * other) as i64
        }
    }

    open spec fn zero_spec() -> i64 {
        0
    }

    open spec fn one_spec() -> i64 {
        1
    }

    fn add(self, other: i64) -> (r: i64) {
        match self.checked_add(other) {
            Some(v) => v,
            None => {
                if self < 0 {
                    i64::MIN
                } else {
                    i64::MAX
                }
            },
        }
    }

    fn mul(self, other: i64) -> (r: i64) {
        match self.checked_mul(other) {
            Some(v) => v,
            None => {
                proof {
                    lemma_overflowing_product_sign(self as int, other as int);
                }
                if (self < 0) == (other < 0) {
                    i64::MAX
                } else {
                    i64::MIN
                }
            },
        }
    }

    fn zero() -> (r: i64) {
        0
    }

    fn one() -> (r: i64) {
        1
    }

    proof fn mul_one_is_identity(x: i64) {
    }

    proof fn mul_zero_is_zero(x: i64) {
    }
}

/// A product large enough to overflow `i64` is positive exactly when its
/// factors share a sign.
proof fn lemma_overflowing_product_sign(a: int, b: int)
    requires
        a * b > i64::MAX || a * b < i64::MIN,
    ensures
        (a < 0 <==> b < 0) ==> a * b > i64::MAX,
        !(a < 0 <==> b < 0) ==> a * b < i64::MIN,
{
    assert((a < 0 <==> b < 0) ==> a * b >= 0) by (nonlinear_arith);
    assert(!(a < 0 <==> b < 0) ==> a * b <= 0) by (nonlinear_arith);
}

} // verus!
