//! The arithmetic-chip context model.
//!
//! A context is an ephemeral, exclusively owned workspace. Every operation
//! requested against it — assigning a native witness, assigning a
//! foreign-field witness, computing a pairing — only appends deferred
//! records; nothing touches circuit storage until the records are replayed.
//! Cells are allocated deterministically: record `k` always lives at
//! `ctx_cell(k)`, so identical request sequences produce identical cells.
use vstd::prelude::*;

verus! {

use num_bigint::BigUint;
use crate::bigint::bn_nat;
use crate::cell::{
    AssignedFq,
    AssignedFq12,
    AssignedG2Affine,
    AssignedPoint,
    AssignedValue,
    ContextCell,
    fq12_fq,
    fq_limbs_in_range,
    fq_value,
};
use crate::codec::{bn_to_limbs, chunk108, lemma_chunks_recompose};
use crate::value::{Fr, fr_nat};
use vstd::arithmetic::power2::pow2;

/// Number of witness columns the base chip offers per region.
pub const VAR_COLUMNS: usize = 5;

/// A deferred gate assignment: when replayed, `value` is committed at the
/// circuit position mirroring `cell`.
#[derive(Clone, Copy, Debug, PartialEq, Eq)]
pub struct Record {
    pub cell: ContextCell,
    pub value: Fr,
}

/// The context cell that the `k`-th record of a context occupies: cells
/// fill the base region column-first, row by row.
pub open spec fn ctx_cell(k: int) -> ContextCell {
    ContextCell {
        region: 0,
        col: (k % (VAR_COLUMNS as int)) as usize,
        row: (k / (VAR_COLUMNS as int)) as usize,
    }
}

/// Distinct record indices occupy distinct context cells.
pub proof fn lemma_ctx_cell_injective(k1: int, k2: int)
    requires
        0 <= k1 <= usize::MAX,
        0 <= k2 <= usize::MAX,
        ctx_cell(k1) == ctx_cell(k2),
    ensures
        k1 == k2,
{
    let v = VAR_COLUMNS as int;
    vstd::arithmetic::div_mod::lemma_mod_bound(k1, v);
    vstd::arithmetic::div_mod::lemma_mod_bound(k2, v);
    vstd::arithmetic::div_mod::lemma_div_pos_is_pos(k1, v);
    vstd::arithmetic::div_mod::lemma_div_pos_is_pos(k2, v);
    vstd::arithmetic::div_mod::lemma_fundamental_div_mod(k1, v);
    vstd::arithmetic::div_mod::lemma_fundamental_div_mod(k2, v);
}

/// The arithmetic-chip context: deferred records only.
pub struct EccContext {
    pub records: Vec<Record>,
}

impl EccContext {
    /// Record `k` occupies `ctx_cell(k)`: cells are never reused and never
    /// allocated out of order.
    pub open spec fn wf(self) -> bool {
        forall|k: int| 0 <= k < self.records@.len() ==> (#[trigger] self.records@[k]).cell
            == ctx_cell(k)
    }

    /// Whether this assigned value was produced by this context: some
    /// record assigns exactly its value to its cell.
    pub open spec fn holds(self, av: AssignedValue) -> bool {
        exists|k: int|
            0 <= k < self.records@.len() && (#[trigger] self.records@[k]) == Record {
                cell: av.cell,
                value: av.value,
            }
    }

    /// Whether a foreign-field element was produced by this context.
    pub open spec fn holds_fq(self, fq: AssignedFq) -> bool {
        &&& self.holds(fq.limbs_le.0)
        &&& self.holds(fq.limbs_le.1)
        &&& self.holds(fq.limbs_le.2)
        &&& self.holds(fq.limbs_le.3)
    }

    /// Whether a base-curve point was produced by this context.
    pub open spec fn holds_point(self, p: AssignedPoint) -> bool {
        self.holds_fq(p.x) && self.holds_fq(p.y) && self.holds(p.z.0)
    }

    /// Whether a twist point was produced by this context.
    pub open spec fn holds_g2(self, p: AssignedG2Affine) -> bool {
        &&& self.holds_fq(p.x.0)
        &&& self.holds_fq(p.x.1)
        &&& self.holds_fq(p.y.0)
        &&& self.holds_fq(p.y.1)
        &&& self.holds(p.z.0)
    }

    /// A fresh, empty context. Each gadget invocation creates its own.
    pub fn new() -> (r: EccContext)
        ensures
            r.wf(),
            r.records@.len() == 0,
    {
        EccContext { records: Vec::new() }
    }

    /// Assigns a native witness value: appends one record and hands back
    /// the assigned value with its freshly allocated cell.
    pub fn assign(&mut self, v: Fr) -> (r: AssignedValue)
        requires
            old(self).wf(),
        ensures
            final(self).wf(),
            final(self).records@.len() == old(self).records@.len() + 1,
            forall|i: int| 0 <= i < old(self).records@.len() ==> final(self).records@[i] == old(
                self,
            ).records@[i],
            r.value == v,
            r.cell == ctx_cell(old(self).records@.len() as int),
            final(self).records@[old(self).records@.len() as int] == (Record {
                cell: r.cell,
                value: v,
            }),
            final(self).holds(r),
    {
        let k = self.records.len();
        let cell = ContextCell { region: 0, col: k % VAR_COLUMNS, row: k / VAR_COLUMNS };
        let record = Record { cell, value: v };
        self.records.push(record);
        let r = AssignedValue { value: v, cell };
        proof {
            assert(cell == ctx_cell(k as int));
            assert(self.records@[k as int] == record);
        }
        r
    }

    /// Assigns a foreign-field witness: splits the big integer into four
    /// 108-bit limbs and assigns each as a native witness. The limbs
    /// recombine to the integer's low 432 bits; the real chip's range
    /// gates (not modeled here) enforce canonical range on top of this
    /// width.
    pub fn assign_w(&mut self, w: &BigUint) -> (r: AssignedFq)
        requires
            old(self).wf(),
        ensures
            final(self).wf(),
            final(self).records@.len() == old(self).records@.len() + 4,
            forall|i: int| 0 <= i < old(self).records@.len() ==> final(self).records@[i] == old(
                self,
            ).records@[i],
            r.limbs_le.0.cell == ctx_cell(old(self).records@.len() as int),
            r.limbs_le.1.cell == ctx_cell(old(self).records@.len() + 1 as int),
            r.limbs_le.2.cell == ctx_cell(old(self).records@.len() + 2 as int),
            r.limbs_le.3.cell == ctx_cell(old(self).records@.len() + 3 as int),
            final(self).records@[old(self).records@.len() as int] == (Record {
                cell: r.limbs_le.0.cell,
                value: r.limbs_le.0.value,
            }),
            final(self).records@[old(self).records@.len() + 1 as int] == (Record {
                cell: r.limbs_le.1.cell,
                value: r.limbs_le.1.value,
            }),
            final(self).records@[old(self).records@.len() + 2 as int] == (Record {
                cell: r.limbs_le.2.cell,
                value: r.limbs_le.2.value,
            }),
            final(self).records@[old(self).records@.len() + 3 as int] == (Record {
                cell: r.limbs_le.3.cell,
                value: r.limbs_le.3.value,
            }),
            final(self).holds_fq(r),
            fq_value(r) == bn_nat(*w) % pow2(432),
            fr_nat(r.limbs_le.0.value) == chunk108(bn_nat(*w), 0),
            fr_nat(r.limbs_le.1.value) == chunk108(bn_nat(*w), 1),
            fr_nat(r.limbs_le.2.value) == chunk108(bn_nat(*w), 2),
            fr_nat(r.limbs_le.3.value) == chunk108(bn_nat(*w), 3),
            fq_limbs_in_range(r),
    {
        let ghost n = old(self).records@.len() as int;
        let limbs = bn_to_limbs(w);
        let l0 = self.assign(limbs.0);
        let l1 = self.assign(limbs.1);
        let l2 = self.assign(limbs.2);
        let l3 = self.assign(limbs.3);
        let r = AssignedFq { limbs_le: (l0, l1, l2, l3) };
        proof {
            lemma_chunks_recompose(bn_nat(*w));
            assert(self.records@[n] == Record { cell: l0.cell, value: l0.value });
            assert(self.records@[n + 1] == Record { cell: l1.cell, value: l1.value });
            assert(self.records@[n + 2] == Record { cell: l2.cell, value: l2.value });
            assert(self.records@[n + 3] == Record { cell: l3.cell, value: l3.value });
        }
        r
    }

    /// Requests the pairing of a base point and a twist point, both of
    /// which must have been produced by this context. The Miller loop and
    /// final exponentiation are the arithmetic chip's own gates and stay a
    /// black box here: the model allocates the 48 result limb cells — the
    /// twelve sub-elements in the fixed traversal order — and defers their
    /// witness values (zero placeholders in the model) like any other
    /// record. Nothing downstream relies on those values.
    #[verifier::rlimit(60)]
    pub fn pairing(&mut self, g1: &AssignedPoint, g2: &AssignedG2Affine) -> (r: AssignedFq12)
        requires
            old(self).wf(),
            old(self).holds_point(*g1),
            old(self).holds_g2(*g2),
        ensures
            final(self).wf(),
            final(self).records@.len() == old(self).records@.len() + 48,
            forall|i: int| 0 <= i < old(self).records@.len() ==> final(self).records@[i] == old(
                self,
            ).records@[i],
            forall|s: int, j: int|
                0 <= s < 12 && 0 <= j < 4 ==> #[trigger] fq12_cell(r, s, j) == ctx_cell(
                    old(self).records@.len() + 4 * s + j,
                ),
            forall|k: int|
                old(self).records@.len() <= k < final(self).records@.len() ==> fr_nat(
                    (#[trigger] final(self).records@[k]).value,
                ) == 0,
    {
        let ghost n = old(self).records@.len() as int;
        let f0 = self.assign_fq_zero();
        let f1 = self.assign_fq_zero();
        let f2 = self.assign_fq_zero();
        let f3 = self.assign_fq_zero();
        let f4 = self.assign_fq_zero();
        let f5 = self.assign_fq_zero();
        let f6 = self.assign_fq_zero();
        let f7 = self.assign_fq_zero();
        let f8 = self.assign_fq_zero();
        let f9 = self.assign_fq_zero();
        let f10 = self.assign_fq_zero();
        let f11 = self.assign_fq_zero();
        let r = (((f0, f1), (f2, f3), (f4, f5)), ((f6, f7), (f8, f9), (f10, f11)));
        proof {
            assert(fq12_fq(r, 0) == f0);
            assert(fq12_fq(r, 1) == f1);
            assert(fq12_fq(r, 2) == f2);
            assert(fq12_fq(r, 3) == f3);
            assert(fq12_fq(r, 4) == f4);
            assert(fq12_fq(r, 5) == f5);
            assert(fq12_fq(r, 6) == f6);
            assert(fq12_fq(r, 7) == f7);
            assert(fq12_fq(r, 8) == f8);
            assert(fq12_fq(r, 9) == f9);
            assert(fq12_fq(r, 10) == f10);
            assert(fq12_fq(r, 11) == f11);
        }
        r
    }

    /// Assigns one all-zero foreign-field element, limb by limb.
    fn assign_fq_zero(&mut self) -> (r: AssignedFq)
        requires
            old(self).wf(),
        ensures
            final(self).wf(),
            final(self).records@.len() == old(self).records@.len() + 4,
            forall|i: int| 0 <= i < old(self).records@.len() ==> final(self).records@[i] == old(
                self,
            ).records@[i],
            r.limbs_le.0.cell == ctx_cell(old(self).records@.len() as int),
            r.limbs_le.1.cell == ctx_cell(old(self).records@.len() + 1 as int),
            r.limbs_le.2.cell == ctx_cell(old(self).records@.len() + 2 as int),
            r.limbs_le.3.cell == ctx_cell(old(self).records@.len() + 3 as int),
            forall|k: int|
                old(self).records@.len() <= k < final(self).records@.len() ==> fr_nat(
                    (#[trigger] final(self).records@[k]).value,
                ) == 0,
    {
        let ghost n = old(self).records@.len() as int;
        let l0 = self.assign(Fr::zero());
        let l1 = self.assign(Fr::zero());
        let l2 = self.assign(Fr::zero());
        let l3 = self.assign(Fr::zero());
        proof {
            assert(self.records@[n].value == l0.value);
            assert(self.records@[n + 1].value == l1.value);
            assert(self.records@[n + 2].value == l2.value);
            assert(self.records@[n + 3].value == l3.value);
        }
        AssignedFq { limbs_le: (l0, l1, l2, l3) }
    }

    /// Consumes the context and takes its deferred record list, the one
    /// input replay needs. After this the context is gone: no further
    /// operation can be requested against it.
    pub fn into_records(self) -> (r: Vec<Record>)
        ensures
            r == self.records,
    {
        self.records
    }
}

/// The context cell of limb `j` of sub-element `s` of a target-field
/// element.
pub open spec fn fq12_cell(r: AssignedFq12, s: int, j: int) -> ContextCell {
    crate::cell::fq12_limb(r, s, j).cell
}

/// Appending records to a context never unbinds a value it already holds.
pub proof fn lemma_holds_preserved(pre: EccContext, post: EccContext, av: AssignedValue)
    requires
        pre.holds(av),
        pre.records@.len() <= post.records@.len(),
        forall|i: int| 0 <= i < pre.records@.len() ==> post.records@[i] == pre.records@[i],
    ensures
        post.holds(av),
{
    let k = choose|k: int|
        0 <= k < pre.records@.len() && (#[trigger] pre.records@[k]) == Record {
            cell: av.cell,
            value: av.value,
        };
    assert(post.records@[k] == Record { cell: av.cell, value: av.value });
}

/// Appending records never unbinds a foreign-field element.
pub proof fn lemma_holds_fq_preserved(pre: EccContext, post: EccContext, fq: AssignedFq)
    requires
        pre.holds_fq(fq),
        pre.records@.len() <= post.records@.len(),
        forall|i: int| 0 <= i < pre.records@.len() ==> post.records@[i] == pre.records@[i],
    ensures
        post.holds_fq(fq),
{
    lemma_holds_preserved(pre, post, fq.limbs_le.0);
    lemma_holds_preserved(pre, post, fq.limbs_le.1);
    lemma_holds_preserved(pre, post, fq.limbs_le.2);
    lemma_holds_preserved(pre, post, fq.limbs_le.3);
}

} // verus!
