//! The numeric operations that the library needs from its sample type.
//!
//! A sample type is one of the floating-point types for which `rustfft`
//! implements `FFTnum`. Their values are opaque to the proofs. Of a product, a
//! quotient or a conversion the functions here say what vstd says of the same
//! operation on a floating-point number: that the result stands in vstd's
//! relation for that operation to the arguments. The relations have no
//! definition, so this tells one result from another and nothing more.

use num_traits::FromPrimitive;
use num_traits::One;
use num_traits::ToPrimitive;
use num_traits::Zero;
use rustfft::FFTnum;
use vstd::float::float_cast_spec;
use vstd::prelude::*;
use vstd::std_specs::ops::div_ensures;
use vstd::std_specs::ops::mul_ensures;

verus! {

/// `num_traits::Zero::zero`: the additive identity of `T`. Nothing is claimed
/// of the value.
#[verifier::external_body]
pub(crate) fn zero<T: Zero>() -> T {
    T::zero()
}

/// `num_traits::One::one`: the multiplicative identity of `T`. Nothing is
/// claimed of the value.
#[verifier::external_body]
pub(crate) fn one<T: One>() -> T {
    T::one()
}

/// `num_traits::FromPrimitive::from_usize`: the count `n` as a sample value,
/// or `None` where `T` cannot represent it. For a floating-point type the
/// value is the cast `n as T`. Claimed: a value that comes back stands in
/// vstd's relation for such a cast to `n`.
#[verifier::external_body]
pub(crate) fn from_usize<T: FromPrimitive>(n: usize) -> (r: Option<T>)
    ensures
        r matches Some(v) ==> float_cast_spec(n, v),
{
    T::from_usize(n)
}

/// `num_traits::ToPrimitive::to_u64`: the value truncated to an integer, or
/// `None` where it has none in range (a negative number, an infinity, a NaN).
/// For a floating-point number in range the integer is the cast `x as u64`.
/// Claimed: an integer that comes back stands in vstd's relation for such a
/// cast to `x`.
#[verifier::external_body]
pub(crate) fn to_u64<T: ToPrimitive>(x: T) -> (r: Option<u64>)
    ensures
        r matches Some(v) ==> float_cast_spec(x, v),
{
    x.to_u64()
}

/// `core::ops::Mul::mul` of the sample type, which for floating-point
/// numbers returns on every pair of arguments. Claimed: the product stands
/// in vstd's relation for a floating-point product to the two factors.
#[verifier::external_body]
pub(crate) fn multiply<T: FFTnum>(a: T, b: T) -> (r: T)
    ensures
        mul_ensures::<T>(a, b, r),
{
    a * b
}

/// `core::ops::Div::div` of the sample type, which for floating-point
/// numbers returns on every pair of arguments, a zero divisor included.
/// Claimed: the quotient stands in vstd's relation for a floating-point
/// quotient to dividend and divisor.
#[verifier::external_body]
pub(crate) fn divide<T: FFTnum>(a: T, b: T) -> (r: T)
    ensures
        div_ensures::<T>(a, b, r),
{
    a / b
}

/// `y` is a result of multiplying `x` by `gain` and dividing the product by
/// `norm`.
pub open spec fn is_scaled<T>(x: T, gain: T, norm: T, y: T) -> bool {
    exists|product: T| #[trigger] mul_ensures::<T>(x, gain, product) && div_ensures::<T>(product, norm, y)
}

} // verus!
