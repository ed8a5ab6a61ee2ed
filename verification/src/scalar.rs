//! The numbers that positions, angles, scales and depths are made of.

use vstd::prelude::*;

verus! {

/// A kind of number that transforms and depths can be counted in.
///
/// The arithmetic of a scalar is a function of its operands: `minus` and
/// `plus` give what `spec_minus` and `spec_plus` name, every time. Nothing
/// else is asked of it, so a kind of number that rounds, wraps or clamps is
/// a scalar too.
pub trait Scalar: Copy {
    /// The number 0.
    spec fn spec_zero() -> Self;

    /// The number 1.
    spec fn spec_one() -> Self;

    /// `self - rhs`, as this kind of number computes it.
    spec fn spec_minus(self, rhs: Self) -> Self;

    /// `self + rhs`, as this kind of number computes it.
    spec fn spec_plus(self, rhs: Self) -> Self;

    /// The number 0.
    fn zero() -> (zero: Self)
        ensures
            zero == Self::spec_zero(),
    ;

    /// The number 1.
    fn one() -> (one: Self)
        ensures
            one == Self::spec_one(),
    ;

    /// `self - rhs`.
    fn minus(self, rhs: Self) -> (difference: Self)
        ensures
            difference == self.spec_minus(rhs),
    ;

    /// `self + rhs`.
    fn plus(self, rhs: Self) -> (sum: Self)
        ensures
            sum == self.spec_plus(rhs),
    ;
}

/// `v`, or the end of the range of `i32` that lies nearest to it.
pub open spec fn clamped(v: int) -> i32 {
    if v > i32::MAX {
        i32::MAX
    } else if v < i32::MIN {
        i32::MIN
    } else {
        v as i32
    }
}

/// Whole numbers. A sum or a difference that leaves the range of `i32` is
/// the end of the range that it left by.
impl Scalar for i32 {
    open spec fn spec_zero() -> i32 {
        0
    }

    open spec fn spec_one() -> i32 {
        1
    }

    open spec fn spec_minus(self, rhs: i32) -> i32 {
        clamped(self - rhs)
    }

    open spec fn spec_plus(self, rhs: i32) -> i32 {
        clamped(self + rhs)
    }

    fn zero() -> (zero: i32) {
        0
    }

    fn one() -> (one: i32) {
        1
    }

    fn minus(self, rhs: i32) -> (difference: i32) {
        let wide: i64 = self as i64 - rhs as i64;
        if wide > i32::MAX as i64 {
            i32::MAX
        } else if wide < i32::MIN as i64 {
            i32::MIN
        } else {
            wide as i32
        }
    }

    fn plus(self, rhs: i32) -> (sum: i32) {
        let wide: i64 = self as i64 + rhs as i64;
        if wide > i32::MAX as i64 {
            i32::MAX
        } else if wide < i32::MIN as i64 {
            i32::MIN
        } else {
            wide as i32
        }
    }
}

} // verus!
