//! The limb codec.
//!
//! Foreign-field elements cross the witness interface as four native-field
//! cells, each carrying one 108-bit limb, combined positionally as
//! `Σ limb[i] · 2^(108·i)`. This module converts between native values,
//! big integers and limb groups, and proves the conversion lossless on the
//! representable range. No range checks happen here: the arithmetic chip
//! consuming an integer is responsible for enforcing canonical range.
use vstd::prelude::*;

verus! {

use num_bigint::BigUint;
use crate::bigint::{bn_nat, bn_from_u64, bn_add, bn_mul, bn_pow, bn_div, bn_rem, bn_to_u64_digits};
use crate::cell::{AssignedCell, cell_nat};
use crate::digits::{u64_seq_nat, digit, lemma_u64_seq_nat_le4, lemma_u64_seq_nat_lower};
use crate::value::{Fr, fr_nat, fr_flag};
use vstd::arithmetic::power2::{
    pow2,
    lemma_pow2,
    lemma_pow2_pos,
    lemma_pow2_adds,
    lemma_pow2_strictly_increases,
};
use vstd::arithmetic::div_mod::{
    lemma_mod_bound,
    lemma_mod_breakdown,
    lemma_div_denominator,
    lemma_div_pos_is_pos,
    lemma_small_mod,
};

/// Whether the `n` cells starting at `start` all hold assigned values.
pub open spec fn cells_assigned(s: Seq<AssignedCell>, start: int, n: int) -> bool {
    forall|i: int| start <= i < start + n ==> s[i].value is Some
}

/// The integer encoded by the first `k` of the four limb cells starting at
/// `start`, base `2^108`.
pub open spec fn cells_value_upto(s: Seq<AssignedCell>, start: int, k: int) -> nat
    decreases k,
{
    if k <= 0 {
        0
    } else {
        (cells_value_upto(s, start, k - 1) + cell_nat(s[start + k - 1]) * pow2(
            (108 * (k - 1)) as nat,
        )) as nat
    }
}

/// The integer encoded by the four limb cells starting at `start`.
pub open spec fn cells_value(s: Seq<AssignedCell>, start: int) -> nat {
    cells_value_upto(s, start, 4)
}

/// 108-bit chunk `i` of an integer.
pub open spec fn chunk108(n: nat, i: nat) -> nat {
    (n / pow2(108 * i)) % pow2(108)
}

/// Reads a native value as the little-endian integer it encodes.
pub fn fr_to_bn(f: &Fr) -> (r: BigUint)
    ensures
        bn_nat(r) == fr_nat(*f),
{
    let two = bn_from_u64(2);
    let t0 = bn_from_u64(f.limbs.0);
    let t1 = bn_mul(&bn_from_u64(f.limbs.1), &bn_pow(&two, 64));
    let t2 = bn_mul(&bn_from_u64(f.limbs.2), &bn_pow(&two, 128));
    let t3 = bn_mul(&bn_from_u64(f.limbs.3), &bn_pow(&two, 192));
    proof {
        lemma_pow2(64);
        lemma_pow2(128);
        lemma_pow2(192);
    }
    bn_add(&bn_add(&t0, &t1), &bn_add(&t2, &t3))
}

/// Reads a native value as a flag: true iff its low byte is nonzero.
pub fn fr_to_bool(f: &Fr) -> (r: bool)
    ensures
        r == fr_flag(*f),
{
    let l = f.limbs.0;
    let low = l & 0xff;
    proof {
        assert(l & 0xff == l % 256) by (bit_vector);
    }
    low != 0
}

/// Decodes the four assigned limb cells starting at `start` into the big
/// integer they encode.
pub fn assigned_cells_to_bn381(a: &Vec<AssignedCell>, start: usize) -> (r: BigUint)
    requires
        start + 4 <= a@.len(),
        cells_assigned(a@, start as int, 4),
    ensures
        bn_nat(r) == cells_value(a@, start as int),
{
    let alen = a.len();
    let end = start + 4;
    let mut bn = bn_from_u64(0);
    let two = bn_from_u64(2);
    let mut i: usize = start;
    while i < end
        invariant
            start <= i <= end,
            end == start + 4,
            start + 4 <= a@.len(),
            cells_assigned(a@, start as int, 4),
            bn_nat(bn) == cells_value_upto(a@, start as int, i - start),
            bn_nat(two) == 2,
        decreases start + 4 - i,
    {
        let e: u32 = 108 * ((i - start) as u32);
        let shift = bn_pow(&two, e);
        let v = a[i].value.unwrap();
        let term = bn_mul(&fr_to_bn(&v), &shift);
        proof {
            lemma_pow2((108 * (i - start)) as nat);
        }
        bn = bn_add(&bn, &term);
        i = i + 1;
    }
    bn
}

/// Packs a big integer below `2^256` into a native value.
pub fn bn_to_fr(b: &BigUint) -> (r: Fr)
    requires
        bn_nat(*b) < pow2(256),
    ensures
        fr_nat(r) == bn_nat(*b),
{
    let digits = bn_to_u64_digits(b);
    proof {
        if digits@.len() > 4 {
            lemma_u64_seq_nat_lower(digits@);
            let e = 64 * (digits@.len() - 1) as nat;
            if e != 256 {
                lemma_pow2_strictly_increases(256, e);
            }
            assert(pow2(e) * digits@[digits@.len() - 1] >= pow2(e) * 1) by (nonlinear_arith)
                requires
                    digits@[digits@.len() - 1] >= 1,
                    pow2(e) > 0,
            ;
            assert(false);
        }
        lemma_u64_seq_nat_le4(digits@);
    }
    let d0 = if digits.len() > 0 {
        digits[0]
    } else {
        0
    };
    let d1 = if digits.len() > 1 {
        digits[1]
    } else {
        0
    };
    let d2 = if digits.len() > 2 {
        digits[2]
    } else {
        0
    };
    let d3 = if digits.len() > 3 {
        digits[3]
    } else {
        0
    };
    proof {
        assert(d0 == digit(digits@, 0));
        assert(d1 == digit(digits@, 1));
        assert(d2 == digit(digits@, 2));
        assert(d3 == digit(digits@, 3));
    }
    Fr::from_limbs(d0, d1, d2, d3)
}

/// Splits a big integer into its four low 108-bit chunks, packed as native
/// values. Anything at or above bit 432 is cut off; on the representable
/// range the split is lossless (`lemma_limb_round_trip`).
pub fn bn_to_limbs(w: &BigUint) -> (r: (Fr, Fr, Fr, Fr))
    ensures
        fr_nat(r.0) == chunk108(bn_nat(*w), 0),
        fr_nat(r.1) == chunk108(bn_nat(*w), 1),
        fr_nat(r.2) == chunk108(bn_nat(*w), 2),
        fr_nat(r.3) == chunk108(bn_nat(*w), 3),
        fr_nat(r.0) < pow2(108),
        fr_nat(r.1) < pow2(108),
        fr_nat(r.2) < pow2(108),
        fr_nat(r.3) < pow2(108),
{
    let two = bn_from_u64(2);
    let p108 = bn_pow(&two, 108);
    proof {
        lemma_pow2(108);
        lemma_pow2_pos(108);
        lemma_pow2_strictly_increases(108, 256);
        lemma_mod_bound(bn_nat(*w) as int, pow2(108) as int);
    }
    let l0 = bn_rem(w, &p108);
    let q1 = bn_div(w, &p108);
    proof {
        let n = bn_nat(*w) as int;
        let p = pow2(108) as int;
        lemma_div_pos_is_pos(n, p);
        lemma_mod_bound(n / p, p);
        lemma_div_denominator(n, p, p);
        lemma_pow2_adds(108, 108);
        assert(bn_nat(q1) == n / pow2(108) as int);
        assert(n / p / p == n / pow2(216) as int);
        assert(pow2(0) == 1) by {
            vstd::arithmetic::power2::lemma2_to64();
        }
        assert(n / pow2(0) as int == n) by {
            vstd::arithmetic::div_mod::lemma_div_basics(n);
        }
    }
    let l1 = bn_rem(&q1, &p108);
    let q2 = bn_div(&q1, &p108);
    proof {
        let n = bn_nat(*w) as int;
        let p = pow2(108) as int;
        lemma_div_pos_is_pos(n, pow2(216) as int);
        lemma_mod_bound(n / pow2(216) as int, p);
        lemma_div_denominator(n, pow2(216) as int, p);
        lemma_pow2_adds(216, 108);
        assert(bn_nat(q2) == n / pow2(216) as int);
        assert(n / pow2(216) as int / p == n / pow2(324) as int);
        lemma_div_pos_is_pos(n / pow2(216) as int, p);
        lemma_mod_bound(n / pow2(324) as int, p);
    }
    let l2 = bn_rem(&q2, &p108);
    let q3 = bn_div(&q2, &p108);
    let l3 = bn_rem(&q3, &p108);
    (bn_to_fr(&l0), bn_to_fr(&l1), bn_to_fr(&l2), bn_to_fr(&l3))
}

/// The four 108-bit chunks of an integer recombine positionally to the
/// integer's low 432 bits.
pub proof fn lemma_chunks_recompose(n: nat)
    ensures
        chunk108(n, 0) + chunk108(n, 1) * pow2(108) + chunk108(n, 2) * pow2(216) + chunk108(n, 3)
            * pow2(324) == n % pow2(432),
{
    let ni = n as int;
    let p = pow2(108) as int;
    lemma_pow2_pos(108);
    lemma_pow2_pos(216);
    lemma_pow2_pos(324);
    lemma_pow2_adds(108, 324);
    lemma_pow2_adds(108, 216);
    lemma_pow2_adds(108, 108);
    lemma_pow2_adds(216, 108);
    assert(pow2(0) == 1) by {
        vstd::arithmetic::power2::lemma2_to64();
    }
    assert(ni / pow2(0) as int == ni) by {
        vstd::arithmetic::div_mod::lemma_div_basics(ni);
    }
    lemma_div_pos_is_pos(ni, p);
    lemma_div_pos_is_pos(ni, pow2(216) as int);
    lemma_div_denominator(ni, p, p);
    lemma_div_denominator(ni, pow2(216) as int, p);
    let c0 = chunk108(n, 0) as int;
    let c1 = chunk108(n, 1) as int;
    let c2 = chunk108(n, 2) as int;
    let c3 = chunk108(n, 3) as int;
    lemma_mod_breakdown(ni, p, pow2(324) as int);
    assert(ni % pow2(432) as int == p * ((ni / p) % pow2(324) as int) + c0);
    lemma_mod_breakdown(ni / p, p, pow2(216) as int);
    assert((ni / p) % pow2(324) as int == p * ((ni / pow2(216) as int) % pow2(216) as int) + c1);
    lemma_mod_breakdown(ni / pow2(216) as int, p, p);
    assert((ni / pow2(216) as int) % pow2(216) as int == p * c3 + c2);
    assert(p * (p * (p * c3 + c2) + c1) == c1 * p + c2 * (p * p) + c3 * (p * (p * p)))
        by (nonlinear_arith);
    assert(pow2(216) == p * p);
    assert(pow2(324) == p * (p * p)) by {
        lemma_pow2_adds(108, 216);
    }
    assert(ni % pow2(432) as int == c0 + c1 * pow2(108) + c2 * pow2(216) + c3 * pow2(324));
}

/// Round trip: splitting any value below `2^432` into four 108-bit chunks
/// and recombining them positionally reproduces the value exactly.
pub proof fn lemma_limb_round_trip(n: nat)
    requires
        n < pow2(432),
    ensures
        chunk108(n, 0) + chunk108(n, 1) * pow2(108) + chunk108(n, 2) * pow2(216) + chunk108(n, 3)
            * pow2(324) == n,
{
    lemma_chunks_recompose(n);
    lemma_pow2_pos(432);
    lemma_small_mod(n, pow2(432));
}

} // verus!
