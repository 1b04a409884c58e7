//! The native-field value model.
//!
//! Witness cells of the constraint system carry elements of the proof
//! system's native scalar field. The gadget reads such an element in two
//! ways only: as the little-endian integer it encodes (for limb decoding)
//! and through its low byte (for identity flags). The model therefore holds
//! the canonical little-endian 64-bit limb representation.
use vstd::prelude::*;

verus! {

use vstd::arithmetic::power2::{pow2, lemma_pow2_adds, lemma2_to64};

/// A native-field element: four little-endian 64-bit limbs.
#[derive(Clone, Copy, Debug, PartialEq, Eq)]
pub struct Fr {
    pub limbs: (u64, u64, u64, u64),
}

/// The integer a native value encodes, little-endian base `2^64`.
pub open spec fn fr_nat(f: Fr) -> nat {
    (f.limbs.0 + f.limbs.1 * pow2(64) + f.limbs.2 * pow2(128) + f.limbs.3 * pow2(192)) as nat
}

/// A native value read as a flag: true iff its low byte is nonzero.
pub open spec fn fr_flag(f: Fr) -> bool {
    f.limbs.0 % 256 != 0
}

impl Fr {
    /// The additive identity of the native field.
    pub fn zero() -> (r: Fr)
        ensures
            fr_nat(r) == 0,
            !fr_flag(r),
    {
        Fr { limbs: (0, 0, 0, 0) }
    }

    /// The multiplicative identity of the native field.
    pub fn one() -> (r: Fr)
        ensures
            fr_nat(r) == 1,
            fr_flag(r),
    {
        Fr { limbs: (1, 0, 0, 0) }
    }

    /// Builds a value from its four little-endian 64-bit limbs.
    pub fn from_limbs(l0: u64, l1: u64, l2: u64, l3: u64) -> (r: Fr)
        ensures
            r.limbs == (l0, l1, l2, l3),
            fr_nat(r) == l0 + l1 * pow2(64) + l2 * pow2(128) + l3 * pow2(192),
    {
        Fr { limbs: (l0, l1, l2, l3) }
    }
}

/// The limb representation is positional, so the encoded integer determines
/// the limbs: two values that encode the same integer are equal.
pub proof fn lemma_fr_nat_injective(f1: Fr, f2: Fr)
    requires
        fr_nat(f1) == fr_nat(f2),
    ensures
        f1 == f2,
{
    lemma_fr_limbs_determined(f1);
    lemma_fr_limbs_determined(f2);
}

/// Each limb of a native value is a fixed digit of the integer it encodes.
pub proof fn lemma_fr_limbs_determined(f: Fr)
    ensures
        f.limbs.0 == fr_nat(f) % pow2(64),
        f.limbs.1 == (fr_nat(f) / pow2(64)) % pow2(64),
        f.limbs.2 == (fr_nat(f) / pow2(128)) % pow2(64),
        f.limbs.3 == fr_nat(f) / pow2(192),
{
    lemma2_to64();
    lemma_pow2_adds(64, 64);
    lemma_pow2_adds(64, 128);
    let n = fr_nat(f) as int;
    let (l0, l1, l2, l3) = (f.limbs.0 as int, f.limbs.1 as int, f.limbs.2 as int, f.limbs.3 as int);
    let p64 = pow2(64) as int;
    assert(n == l0 + p64 * (l1 + l2 * p64 + l3 * (p64 * p64))) by (nonlinear_arith)
        requires
            n == l0 + l1 * pow2(64) + l2 * pow2(128) + l3 * pow2(192),
            p64 == pow2(64),
            pow2(128) == pow2(64) * pow2(64),
            pow2(192) == pow2(64) * pow2(128),
    ;
    let q1 = l1 + l2 * p64 + l3 * (p64 * p64);
    assert(0 <= l0 < p64);
    assert(l1 + l2 * p64 + l3 * (p64 * p64) >= 0) by (nonlinear_arith)
        requires
            l1 >= 0,
            l2 >= 0,
            l3 >= 0,
            p64 > 0,
    ;
    vstd::arithmetic::div_mod::lemma_fundamental_div_mod_converse(n, p64, q1, l0);
    assert(n % p64 == l0);
    assert(n / p64 == q1);
    assert(q1 == l1 + p64 * (l2 + l3 * p64)) by (nonlinear_arith)
        requires
            q1 == l1 + l2 * p64 + l3 * (p64 * p64),
    ;
    let q2 = l2 + l3 * p64;
    assert(l2 + l3 * p64 >= 0) by (nonlinear_arith)
        requires
            l2 >= 0,
            l3 >= 0,
            p64 > 0,
    ;
    vstd::arithmetic::div_mod::lemma_fundamental_div_mod_converse(q1, p64, q2, l1);
    assert(q1 % p64 == l1);
    assert(q1 / p64 == q2);
    vstd::arithmetic::div_mod::lemma_fundamental_div_mod_converse(q2, p64, l3, l2);
    assert(q2 % p64 == l2);
    assert(q2 / p64 == l3);
    vstd::arithmetic::div_mod::lemma_div_denominator(n, p64, p64);
    assert(n / pow2(128) as int == q2);
    vstd::arithmetic::div_mod::lemma_div_denominator(n, pow2(128) as int, p64);
    assert(pow2(128) as int * p64 == pow2(192)) by {
        lemma_pow2_adds(128, 64);
    }
    assert(n / pow2(192) as int == l3);
}

} // verus!
