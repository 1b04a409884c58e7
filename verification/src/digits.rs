//! Values of little-endian digit sequences.
//!
//! The big-integer library hands values over as little-endian `u64` digit
//! vectors; this module says what such a vector denotes and proves the
//! bounds needed to repack the digits into a fixed-width native value.
use vstd::prelude::*;

verus! {

use vstd::arithmetic::power2::{pow2, lemma_pow2_adds, lemma2_to64};

/// The natural number denoted by a little-endian sequence of 64-bit digits.
pub open spec fn u64_seq_nat(s: Seq<u64>) -> nat
    decreases s.len(),
{
    if s.len() == 0 {
        0
    } else {
        (s[0] + pow2(64) * u64_seq_nat(s.skip(1))) as nat
    }
}

/// Digit `i` of the sequence, with zero padding past its end.
pub open spec fn digit(s: Seq<u64>, i: int) -> nat {
    if 0 <= i < s.len() {
        s[i] as nat
    } else {
        0
    }
}

/// A digit sequence denotes at least its top digit times its place value.
pub proof fn lemma_u64_seq_nat_lower(s: Seq<u64>)
    requires
        s.len() > 0,
    ensures
        u64_seq_nat(s) >= pow2(64 * (s.len() - 1) as nat) * s[s.len() - 1],
    decreases s.len(),
{
    let rest = s.skip(1);
    if s.len() == 1 {
        lemma2_to64();
        assert(u64_seq_nat(rest) == 0);
    } else {
        lemma_u64_seq_nat_lower(rest);
        lemma_pow2_adds(64, 64 * (s.len() - 2) as nat);
        assert(s[0] + pow2(64) * u64_seq_nat(rest) >= pow2(64) * (pow2(64 * (s.len() - 2) as nat)
            * s[s.len() - 1])) by (nonlinear_arith)
            requires
                u64_seq_nat(rest) >= pow2(64 * (s.len() - 2) as nat) * s[s.len() - 1],
        ;
        assert(pow2(64) * (pow2(64 * (s.len() - 2) as nat) * s[s.len() - 1]) == (pow2(64) * pow2(
            64 * (s.len() - 2) as nat)) * s[s.len() - 1]) by (nonlinear_arith);
    }
}

/// A digit sequence of length at most four denotes the four-term sum of its
/// (zero-padded) digits.
pub proof fn lemma_u64_seq_nat_le4(s: Seq<u64>)
    requires
        s.len() <= 4,
    ensures
        u64_seq_nat(s) == digit(s, 0) + digit(s, 1) * pow2(64) + digit(s, 2) * pow2(128) + digit(
            s,
            3,
        ) * pow2(192),
{
    lemma_pow2_adds(64, 64);
    lemma_pow2_adds(64, 128);
    if s.len() > 0 {
        let s1 = s.skip(1);
        if s.len() > 1 {
            let s2 = s1.skip(1);
            assert(s2 =~= s.skip(2));
            if s.len() > 2 {
                let s3 = s2.skip(1);
                assert(s3 =~= s.skip(3));
                if s.len() > 3 {
                    let s4 = s3.skip(1);
                    assert(s4 =~= s.skip(4));
                    assert(s4.len() == 0);
                    assert(u64_seq_nat(s4) == 0);
                    assert(u64_seq_nat(s3) == (s3[0] + pow2(64) * u64_seq_nat(s4)) as nat);
                } else {
                    assert(s3.len() == 0);
                }
                assert(u64_seq_nat(s3) == digit(s, 3));
                assert(u64_seq_nat(s2) == (s2[0] + pow2(64) * u64_seq_nat(s3)) as nat);
            } else {
                assert(s2.len() == 0);
                assert(u64_seq_nat(s2) == 0);
            }
            assert(u64_seq_nat(s2) == digit(s, 2) + pow2(64) * digit(s, 3));
            assert(u64_seq_nat(s1) == (s1[0] + pow2(64) * u64_seq_nat(s2)) as nat);
        } else {
            assert(s1.len() == 0);
            assert(u64_seq_nat(s1) == 0);
        }
        assert(u64_seq_nat(s1) == digit(s, 1) + digit(s, 2) * pow2(64) + digit(s, 3) * pow2(128))
            by (nonlinear_arith)
            requires
                u64_seq_nat(s1) == digit(s, 1) + pow2(64) * (digit(s, 2) + pow2(64) * digit(s, 3)),
                pow2(128) == pow2(64) * pow2(64),
        ;
        assert(pow2(64) * u64_seq_nat(s1) == digit(s, 1) * pow2(64) + digit(s, 2) * pow2(128)
            + digit(s, 3) * pow2(192)) by (nonlinear_arith)
            requires
                u64_seq_nat(s1) == digit(s, 1) + digit(s, 2) * pow2(64) + digit(s, 3) * pow2(128),
                pow2(128) == pow2(64) * pow2(64),
                pow2(192) == pow2(64) * pow2(128),
        ;
    }
}

} // verus!
