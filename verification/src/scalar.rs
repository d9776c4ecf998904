//! The numbers the network computes with.
//!
//! The engine is generic over its scalar type. A scalar type names each of
//! its operations twice: as an executable method, and as a specification
//! function that says which value the method returns. The engine's contracts
//! are stated over the specification functions, so they hold for every scalar
//! type whose operations are functions of their operands.

use vstd::prelude::*;

verus! {

/// A number type with the operations the training engine needs.
///
/// Every executable operation returns exactly the value its specification
/// twin names. Nothing else is asked of an implementation: rounding,
/// saturation and the treatment of undefined results are its own affair.
pub trait Scalar: Copy {
    /// The scalar closest to `num / den`.
    spec fn spec_from_ratio(num: i64, den: i64) -> Self;

    /// The sum of two scalars.
    spec fn spec_add(self, rhs: Self) -> Self;

    /// The difference of two scalars.
    spec fn spec_sub(self, rhs: Self) -> Self;

    /// The product of two scalars.
    spec fn spec_mul(self, rhs: Self) -> Self;

    /// The quotient of two scalars.
    spec fn spec_div(self, rhs: Self) -> Self;

    /// The additive inverse.
    spec fn spec_neg(self) -> Self;

    /// The absolute value.
    spec fn spec_abs(self) -> Self;

    /// The square root.
    spec fn spec_sqrt(self) -> Self;

    /// The scalar raised to an integer power.
    spec fn spec_powi(self, exponent: i32) -> Self;

    /// The exponential function.
    spec fn spec_exp(self) -> Self;

    /// Whether `self` is strictly below `rhs`.
    spec fn spec_less(self, rhs: Self) -> bool;

    /// Whether `self` is below or equal to `rhs`.
    spec fn spec_less_eq(self, rhs: Self) -> bool;

    /// Whether the two scalars compare equal.
    spec fn spec_equals(self, rhs: Self) -> bool;

    /// Computes the scalar closest to `num / den`.
    fn from_ratio(num: i64, den: i64) -> (r: Self)
        requires
            den != 0,
        ensures
            r == Self::spec_from_ratio(num, den),
    ;

    /// Adds.
    fn add(self, rhs: Self) -> (r: Self)
        ensures
            r == self.spec_add(rhs),
    ;

    /// Subtracts.
    fn sub(self, rhs: Self) -> (r: Self)
        ensures
            r == self.spec_sub(rhs),
    ;

    /// Multiplies.
    fn mul(self, rhs: Self) -> (r: Self)
        ensures
            r == self.spec_mul(rhs),
    ;

    /// Divides.
    fn div(self, rhs: Self) -> (r: Self)
        ensures
            r == self.spec_div(rhs),
    ;

    /// Negates.
    fn neg(self) -> (r: Self)
        ensures
            r == self.spec_neg(),
    ;

    /// Takes the absolute value.
    fn abs(self) -> (r: Self)
        ensures
            r == self.spec_abs(),
    ;

    /// Takes the square root.
    fn sqrt(self) -> (r: Self)
        ensures
            r == self.spec_sqrt(),
    ;

    /// Raises to an integer power.
    fn powi(self, exponent: i32) -> (r: Self)
        ensures
            r == self.spec_powi(exponent),
    ;

    /// Takes the exponential.
    fn exp(self) -> (r: Self)
        ensures
            r == self.spec_exp(),
    ;

    /// Compares: strictly below.
    fn less(self, rhs: Self) -> (r: bool)
        ensures
            r == self.spec_less(rhs),
    ;

    /// Compares: below or equal.
    fn less_eq(self, rhs: Self) -> (r: bool)
        ensures
            r == self.spec_less_eq(rhs),
    ;

    /// Compares: equal.
    fn equals(self, rhs: Self) -> (r: bool)
        ensures
            r == self.spec_equals(rhs),
    ;
}

/// The scalar zero.
pub open spec fn spec_zero<S: Scalar>() -> S {
    S::spec_from_ratio(0, 1)
}

/// The scalar one.
pub open spec fn spec_one<S: Scalar>() -> S {
    S::spec_from_ratio(1, 1)
}

/// The largest count that is converted exactly; larger ones are capped here.
pub open spec fn count_cap() -> int {
    0x7fff_ffff_ffff_ffff
}

/// A count of items as a scalar.
pub open spec fn spec_from_count<S: Scalar>(n: usize) -> S {
    if n <= count_cap() {
        S::spec_from_ratio(n as i64, 1)
    } else {
        S::spec_from_ratio(0x7fff_ffff_ffff_ffff, 1)
    }
}

/// The scalar zero.
pub fn zero<S: Scalar>() -> (r: S)
    ensures
        r == spec_zero::<S>(),
{
    S::from_ratio(0, 1)
}

/// The scalar one.
pub fn one<S: Scalar>() -> (r: S)
    ensures
        r == spec_one::<S>(),
{
    S::from_ratio(1, 1)
}

/// A count of items as a scalar.
pub fn from_count<S: Scalar>(n: usize) -> (r: S)
    ensures
        r == spec_from_count::<S>(n),
{
    let wide: u64 = n as u64;
    if wide <= 0x7fff_ffff_ffff_ffff {
        S::from_ratio(wide as i64, 1)
    } else {
        S::from_ratio(0x7fff_ffff_ffff_ffff, 1)
    }
}

} // verus!
