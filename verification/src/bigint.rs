//! Trusted interface to the big-integer library.
//!
//! Limb decoding and foreign-field witness assignment work on unbounded
//! integers. The `num_bigint` crate supplies them; each call the gadget
//! makes goes through one wrapper here, whose contract states what the
//! library's documentation and source promise about the represented value.
use vstd::prelude::*;

verus! {

use num_bigint::BigUint;
use vstd::arithmetic::power::pow;
use crate::digits::u64_seq_nat;

#[verifier::external_type_specification]
#[verifier::external_body]
pub struct ExBigUint(BigUint);

/// The natural number a `BigUint` holds.
pub uninterp spec fn bn_nat(b: BigUint) -> nat;

/// Relies on `<BigUint as From<u64>>::from`: the new integer holds the
/// given value.
#[verifier::external_body]
pub fn bn_from_u64(x: u64) -> (r: BigUint)
    ensures
        bn_nat(r) == x as nat,
{
    BigUint::from(x)
}

/// Relies on `<&BigUint as Add<&BigUint>>::add`: exact integer addition.
#[verifier::external_body]
pub fn bn_add(a: &BigUint, b: &BigUint) -> (r: BigUint)
    ensures
        bn_nat(r) == bn_nat(*a) + bn_nat(*b),
{
    a + b
}

/// Relies on `<&BigUint as Mul<&BigUint>>::mul`: exact integer
/// multiplication.
#[verifier::external_body]
pub fn bn_mul(a: &BigUint, b: &BigUint) -> (r: BigUint)
    ensures
        bn_nat(r) == bn_nat(*a) * bn_nat(*b),
{
    a * b
}

/// Relies on `BigUint::pow`: exact integer exponentiation.
#[verifier::external_body]
pub fn bn_pow(base: &BigUint, exponent: u32) -> (r: BigUint)
    ensures
        bn_nat(r) == pow(bn_nat(*base) as int, exponent as nat),
{
    base.pow(exponent)
}

/// Relies on `<&BigUint as Div<&BigUint>>::div`: Euclidean quotient. The
/// library panics on a zero divisor, so that input is excluded.
#[verifier::external_body]
pub fn bn_div(a: &BigUint, b: &BigUint) -> (r: BigUint)
    requires
        bn_nat(*b) > 0,
    ensures
        bn_nat(r) == bn_nat(*a) / bn_nat(*b),
{
    a / b
}

/// Relies on `<&BigUint as Rem<&BigUint>>::rem`: Euclidean remainder. The
/// library panics on a zero divisor, so that input is excluded.
#[verifier::external_body]
pub fn bn_rem(a: &BigUint, b: &BigUint) -> (r: BigUint)
    requires
        bn_nat(*b) > 0,
    ensures
        bn_nat(r) == bn_nat(*a) % bn_nat(*b),
{
    a % b
}

/// Relies on `BigUint::to_u64_digits`: the little-endian 64-bit digits of
/// the held value, least significant first, with no trailing zero digit
/// (the library keeps its digit vector normalized).
#[verifier::external_body]
pub fn bn_to_u64_digits(a: &BigUint) -> (r: Vec<u64>)
    ensures
        u64_seq_nat(r@) == bn_nat(*a),
        r@.len() == 0 <==> bn_nat(*a) == 0,
        r@.len() > 0 ==> r@[r@.len() - 1] != 0,
{
    a.to_u64_digits()
}

} // verus!
