//! The point loader.
//!
//! Reconstructs curve-group points from external witness cells inside a
//! chip context: limb groups are decoded to big integers and assigned as
//! foreign-field elements, the identity flag is decoded and assigned as a
//! native boolean. The loader enforces no group membership — on-curve and
//! subgroup constraints are the arithmetic chip's own gates, requested
//! implicitly by the pairing capability.
use vstd::prelude::*;

verus! {

use crate::cell::{AssignedCell, AssignedCondition, AssignedG2Affine, AssignedPoint, fq_value,
    fq_limbs_in_range};
use crate::codec::{assigned_cells_to_bn381, cells_assigned, cells_value, chunk108, fr_to_bool};
use crate::context::{EccContext, Record, ctx_cell, lemma_holds_fq_preserved};
use crate::value::{Fr, fr_flag, fr_nat};
use vstd::arithmetic::power2::pow2;

/// The flag value a loader assigns for an identity bit: one when the
/// external flag cell's low byte is nonzero, zero otherwise.
pub open spec fn flag_nat(flag_cell: AssignedCell) -> nat {
    if fr_flag(flag_cell.value->0) {
        1
    } else {
        0
    }
}

/// Loads a base-curve point from nine external cells: four x-limbs, four
/// y-limbs, one identity flag, in that order. The point's coordinates and
/// flag are bound to freshly created context cells; a flag with nonzero
/// low byte yields the point the arithmetic chip treats as the identity
/// element, whatever the coordinate limbs hold.
#[verifier::rlimit(30)]
pub fn get_g1_from_cells(ctx: &mut EccContext, a: &Vec<AssignedCell>) -> (r: AssignedPoint)
    requires
        old(ctx).wf(),
        a@.len() == 9,
        cells_assigned(a@, 0, 9),
    ensures
        final(ctx).wf(),
        final(ctx).records@.len() == old(ctx).records@.len() + 9,
        forall|i: int| 0 <= i < old(ctx).records@.len() ==> final(ctx).records@[i] == old(
            ctx,
        ).records@[i],
        r.x.limbs_le.0.cell == ctx_cell(old(ctx).records@.len() as int),
        r.x.limbs_le.1.cell == ctx_cell(old(ctx).records@.len() + 1 as int),
        r.x.limbs_le.2.cell == ctx_cell(old(ctx).records@.len() + 2 as int),
        r.x.limbs_le.3.cell == ctx_cell(old(ctx).records@.len() + 3 as int),
        r.y.limbs_le.0.cell == ctx_cell(old(ctx).records@.len() + 4 as int),
        r.y.limbs_le.1.cell == ctx_cell(old(ctx).records@.len() + 5 as int),
        r.y.limbs_le.2.cell == ctx_cell(old(ctx).records@.len() + 6 as int),
        r.y.limbs_le.3.cell == ctx_cell(old(ctx).records@.len() + 7 as int),
        r.z.0.cell == ctx_cell(old(ctx).records@.len() + 8 as int),
        final(ctx).holds_point(r),
        fq_value(r.x) == cells_value(a@, 0) % pow2(432),
        fq_value(r.y) == cells_value(a@, 4) % pow2(432),
        fq_limbs_in_range(r.x),
        fq_limbs_in_range(r.y),
        fr_nat(r.z.0.value) == flag_nat(a@[8]),
        forall|k: int|
            0 <= k < 9 ==> fr_nat((#[trigger] final(ctx).records@[old(ctx).records@.len() + k]).value)
                == g1_record_nat(a@, k),
{
    let ghost n = old(ctx).records@.len() as int;
    let x_bn = assigned_cells_to_bn381(a, 0);
    let y_bn = assigned_cells_to_bn381(a, 4);
    let is_identity = fr_to_bool(&a[8].value.unwrap());
    let x = ctx.assign_w(&x_bn);
    let ghost mid1 = *ctx;
    let y = ctx.assign_w(&y_bn);
    let ghost mid2 = *ctx;
    let flag = if is_identity {
        Fr::one()
    } else {
        Fr::zero()
    };
    let z = AssignedCondition(ctx.assign(flag));
    let r = AssignedPoint { x, y, z };
    proof {
        lemma_holds_fq_preserved(mid1, *ctx, x);
        lemma_holds_fq_preserved(mid2, *ctx, y);
        assert(ctx.records@[n] == Record { cell: x.limbs_le.0.cell, value: x.limbs_le.0.value });
        assert(ctx.records@[n + 1] == Record { cell: x.limbs_le.1.cell, value: x.limbs_le.1.value });
        assert(ctx.records@[n + 2] == Record { cell: x.limbs_le.2.cell, value: x.limbs_le.2.value });
        assert(ctx.records@[n + 3] == Record { cell: x.limbs_le.3.cell, value: x.limbs_le.3.value });
        assert(ctx.records@[n + 4] == Record { cell: y.limbs_le.0.cell, value: y.limbs_le.0.value });
        assert(ctx.records@[n + 5] == Record { cell: y.limbs_le.1.cell, value: y.limbs_le.1.value });
        assert(ctx.records@[n + 6] == Record { cell: y.limbs_le.2.cell, value: y.limbs_le.2.value });
        assert(ctx.records@[n + 7] == Record { cell: y.limbs_le.3.cell, value: y.limbs_le.3.value });
        assert(ctx.records@[n + 8] == Record { cell: z.0.cell, value: z.0.value });
    }
    r
}

/// The value the `k`-th record created while loading a base point holds:
/// the x-limb chunks, the y-limb chunks, then the flag bit.
pub open spec fn g1_record_nat(a: Seq<AssignedCell>, k: int) -> nat {
    if k < 4 {
        chunk108(cells_value(a, 0), k as nat)
    } else if k < 8 {
        chunk108(cells_value(a, 4), (k - 4) as nat)
    } else {
        flag_nat(a[8])
    }
}

/// The value the `k`-th record created while loading a twist point holds:
/// the chunks of x1, x2, y1, y2, then the flag bit.
pub open spec fn g2_record_nat(b: Seq<AssignedCell>, k: int) -> nat {
    if k < 4 {
        chunk108(cells_value(b, 0), k as nat)
    } else if k < 8 {
        chunk108(cells_value(b, 4), (k - 4) as nat)
    } else if k < 12 {
        chunk108(cells_value(b, 8), (k - 8) as nat)
    } else if k < 16 {
        chunk108(cells_value(b, 12), (k - 12) as nat)
    } else {
        flag_nat(b[16])
    }
}

/// Loads a twist point from seventeen external cells: four limbs for each
/// of the two components of x and of y, then one identity flag.
#[verifier::rlimit(60)]
pub fn get_g2_from_cells(ctx: &mut EccContext, b: &Vec<AssignedCell>) -> (r: AssignedG2Affine)
    requires
        old(ctx).wf(),
        b@.len() == 17,
        cells_assigned(b@, 0, 17),
    ensures
        final(ctx).wf(),
        final(ctx).records@.len() == old(ctx).records@.len() + 17,
        forall|i: int| 0 <= i < old(ctx).records@.len() ==> final(ctx).records@[i] == old(
            ctx,
        ).records@[i],
        r.x.0.limbs_le.0.cell == ctx_cell(old(ctx).records@.len() as int),
        r.x.0.limbs_le.1.cell == ctx_cell(old(ctx).records@.len() + 1 as int),
        r.x.0.limbs_le.2.cell == ctx_cell(old(ctx).records@.len() + 2 as int),
        r.x.0.limbs_le.3.cell == ctx_cell(old(ctx).records@.len() + 3 as int),
        r.x.1.limbs_le.0.cell == ctx_cell(old(ctx).records@.len() + 4 as int),
        r.x.1.limbs_le.1.cell == ctx_cell(old(ctx).records@.len() + 5 as int),
        r.x.1.limbs_le.2.cell == ctx_cell(old(ctx).records@.len() + 6 as int),
        r.x.1.limbs_le.3.cell == ctx_cell(old(ctx).records@.len() + 7 as int),
        r.y.0.limbs_le.0.cell == ctx_cell(old(ctx).records@.len() + 8 as int),
        r.y.0.limbs_le.1.cell == ctx_cell(old(ctx).records@.len() + 9 as int),
        r.y.0.limbs_le.2.cell == ctx_cell(old(ctx).records@.len() + 10 as int),
        r.y.0.limbs_le.3.cell == ctx_cell(old(ctx).records@.len() + 11 as int),
        r.y.1.limbs_le.0.cell == ctx_cell(old(ctx).records@.len() + 12 as int),
        r.y.1.limbs_le.1.cell == ctx_cell(old(ctx).records@.len() + 13 as int),
        r.y.1.limbs_le.2.cell == ctx_cell(old(ctx).records@.len() + 14 as int),
        r.y.1.limbs_le.3.cell == ctx_cell(old(ctx).records@.len() + 15 as int),
        r.z.0.cell == ctx_cell(old(ctx).records@.len() + 16 as int),
        final(ctx).holds_g2(r),
        fq_value(r.x.0) == cells_value(b@, 0) % pow2(432),
        fq_value(r.x.1) == cells_value(b@, 4) % pow2(432),
        fq_value(r.y.0) == cells_value(b@, 8) % pow2(432),
        fq_value(r.y.1) == cells_value(b@, 12) % pow2(432),
        fr_nat(r.z.0.value) == flag_nat(b@[16]),
        forall|k: int|
            0 <= k < 17 ==> fr_nat((#[trigger] final(ctx).records@[old(ctx).records@.len() + k]).value)
                == g2_record_nat(b@, k),
{
    let ghost n = old(ctx).records@.len() as int;
    let x1_bn = assigned_cells_to_bn381(b, 0);
    let x2_bn = assigned_cells_to_bn381(b, 4);
    let y1_bn = assigned_cells_to_bn381(b, 8);
    let y2_bn = assigned_cells_to_bn381(b, 12);
    let x1 = ctx.assign_w(&x1_bn);
    let ghost mid1 = *ctx;
    let x2 = ctx.assign_w(&x2_bn);
    let ghost mid2 = *ctx;
    let y1 = ctx.assign_w(&y1_bn);
    let ghost mid3 = *ctx;
    let y2 = ctx.assign_w(&y2_bn);
    let ghost mid4 = *ctx;
    let is_identity = fr_to_bool(&b[16].value.unwrap());
    let flag = if is_identity {
        Fr::one()
    } else {
        Fr::zero()
    };
    let z = AssignedCondition(ctx.assign(flag));
    let r = AssignedG2Affine { x: (x1, x2), y: (y1, y2), z };
    proof {
        lemma_holds_fq_preserved(mid1, *ctx, x1);
        lemma_holds_fq_preserved(mid2, *ctx, x2);
        lemma_holds_fq_preserved(mid3, *ctx, y1);
        lemma_holds_fq_preserved(mid4, *ctx, y2);
        assert(ctx.records@[n] == Record { cell: x1.limbs_le.0.cell, value: x1.limbs_le.0.value });
        assert(ctx.records@[n + 1] == Record {
            cell: x1.limbs_le.1.cell,
            value: x1.limbs_le.1.value,
        });
        assert(ctx.records@[n + 2] == Record {
            cell: x1.limbs_le.2.cell,
            value: x1.limbs_le.2.value,
        });
        assert(ctx.records@[n + 3] == Record {
            cell: x1.limbs_le.3.cell,
            value: x1.limbs_le.3.value,
        });
        assert(ctx.records@[n + 4] == Record {
            cell: x2.limbs_le.0.cell,
            value: x2.limbs_le.0.value,
        });
        assert(ctx.records@[n + 5] == Record {
            cell: x2.limbs_le.1.cell,
            value: x2.limbs_le.1.value,
        });
        assert(ctx.records@[n + 6] == Record {
            cell: x2.limbs_le.2.cell,
            value: x2.limbs_le.2.value,
        });
        assert(ctx.records@[n + 7] == Record {
            cell: x2.limbs_le.3.cell,
            value: x2.limbs_le.3.value,
        });
        assert(ctx.records@[n + 8] == Record {
            cell: y1.limbs_le.0.cell,
            value: y1.limbs_le.0.value,
        });
        assert(ctx.records@[n + 9] == Record {
            cell: y1.limbs_le.1.cell,
            value: y1.limbs_le.1.value,
        });
        assert(ctx.records@[n + 10] == Record {
            cell: y1.limbs_le.2.cell,
            value: y1.limbs_le.2.value,
        });
        assert(ctx.records@[n + 11] == Record {
            cell: y1.limbs_le.3.cell,
            value: y1.limbs_le.3.value,
        });
        assert(ctx.records@[n + 12] == Record {
            cell: y2.limbs_le.0.cell,
            value: y2.limbs_le.0.value,
        });
        assert(ctx.records@[n + 13] == Record {
            cell: y2.limbs_le.1.cell,
            value: y2.limbs_le.1.value,
        });
        assert(ctx.records@[n + 14] == Record {
            cell: y2.limbs_le.2.cell,
            value: y2.limbs_le.2.value,
        });
        assert(ctx.records@[n + 15] == Record {
            cell: y2.limbs_le.3.cell,
            value: y2.limbs_le.3.value,
        });
        assert(ctx.records@[n + 16] == Record { cell: z.0.cell, value: z.0.value });
    }
    r
}

} // verus!
