//! The unbounded integers of `num_bigint`, as far as this crate uses them.
//!
//! Nothing in this file is proved: each function is a call into `num_bigint`
//! together with what that crate's source shows of the call.

use crate::decimal::decimal_string;
use num_bigint::BigInt;
use vstd::prelude::*;

verus! {

/// `num_bigint::BigInt`, a signed integer of any size. Verified code
/// carries such a value and sees nothing inside it.
#[verifier::external_type_specification]
#[verifier::external_body]
pub struct ExBigInt(num_bigint::BigInt);

/// The mathematical integer that a `BigInt` stands for: its view. The
/// functions below say how each call into `num_bigint` acts on it.
pub uninterp spec fn int_value(b: BigInt) -> int;

/// `BigInt::from` on an `i32`: the same number, widened.
#[verifier::external_body]
pub(crate) fn from_i32(v: i32) -> (r: BigInt)
    ensures
        int_value(r) == v as int,
{
    BigInt::from(v)
}

/// `&BigInt * &BigInt`: the exact product, of any size.
#[verifier::external_body]
pub(crate) fn product(a: &BigInt, b: &BigInt) -> (r: BigInt)
    ensures
        int_value(r) == int_value(*a) * int_value(*b),
{
    a * b
}

/// `BigInt += BigInt`: the exact sum, of any size, left in `acc`.
#[verifier::external_body]
pub(crate) fn add_assign(acc: &mut BigInt, term: BigInt)
    ensures
        int_value(*final(acc)) == int_value(*old(acc)) + int_value(term),
{
    *acc += term;
}

/// `BigInt::to_string`: decimal notation, the digits of the magnitude
/// without leading zeros, behind a `'-'` when the number is negative.
#[verifier::external_body]
pub(crate) fn to_decimal(b: &BigInt) -> (text: String)
    ensures
        text@ == decimal_string(int_value(*b)),
{
    b.to_string()
}

} // verus!
