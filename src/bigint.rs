//! The arbitrary-precision unsigned integer of `num_bigint`, seen by the
//! verifier through the natural number that each value stands for.

use num_bigint::BigUint;
use num_traits::{One, Zero};
use vstd::prelude::*;

verus! {

#[verifier::external_type_specification]
#[verifier::external_body]
pub struct ExBigUint(BigUint);

/// The natural number that a `BigUint` holds.
pub uninterp spec fn big_value(x: BigUint) -> nat;

/// Relies on `num_traits::Zero::zero` for `BigUint`: the value zero.
#[verifier::external_body]
pub(crate) fn big_zero() -> (r: BigUint)
    ensures
        big_value(r) == 0,
{
    BigUint::zero()
}

/// Relies on `num_traits::One::one` for `BigUint`: the value one.
#[verifier::external_body]
pub(crate) fn big_one() -> (r: BigUint)
    ensures
        big_value(r) == 1,
{
    BigUint::one()
}

/// Relies on `Add<&BigUint> for &BigUint`: the exact sum.
#[verifier::external_body]
pub(crate) fn big_add(x: &BigUint, y: &BigUint) -> (r: BigUint)
    ensures
        big_value(r) == big_value(*x) + big_value(*y),
{
    x + y
}

/// Relies on `Sub<&BigUint> for &BigUint`: the exact difference. That impl
/// panics when `y` is larger than `x`, which `requires` leaves out.
#[verifier::external_body]
pub(crate) fn big_sub(x: &BigUint, y: &BigUint) -> (r: BigUint)
    requires
        big_value(*y) <= big_value(*x),
    ensures
        big_value(r) == big_value(*x) - big_value(*y),
{
    x - y
}

/// Relies on `Mul<&BigUint> for &BigUint`: the exact product.
#[verifier::external_body]
pub(crate) fn big_mul(x: &BigUint, y: &BigUint) -> (r: BigUint)
    ensures
        big_value(r) == big_value(*x) * big_value(*y),
{
    x * y
}

} // verus!
