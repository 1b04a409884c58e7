//! Cells and assigned values.
//!
//! Two cell spaces exist. A `ContextCell` locates a value inside the
//! arithmetic-chip context's deferred record list; it exists before any
//! circuit storage does. A `CircuitCell` locates a committed witness cell
//! in circuit storage, produced by replaying the records. Two circuit cells
//! denote the same logical value only when a copy constraint binds them.
use vstd::prelude::*;

verus! {

use crate::value::{Fr, fr_nat};
use vstd::arithmetic::power2::pow2;

/// A locator inside the deferred context: region, column, row.
#[derive(Clone, Copy, Debug, PartialEq, Eq, Structural)]
pub struct ContextCell {
    pub region: usize,
    pub col: usize,
    pub row: usize,
}

/// A locator of a committed cell in circuit storage.
#[derive(Clone, Copy, Debug, PartialEq, Eq, Structural)]
pub struct CircuitCell {
    pub region: usize,
    pub col: usize,
    pub row: usize,
}

/// The committed location at which replay materializes a context cell.
pub open spec fn circ(c: ContextCell) -> CircuitCell {
    CircuitCell { region: c.region, col: c.col, row: c.row }
}

/// A committed witness cell: its location, and its value if assigned.
/// External operand cells arrive in this form; replay produces internal
/// cells in this form. Querying the value of an unassigned cell is a
/// contract violation, so decoding requires `value is Some`.
#[derive(Clone, Copy, Debug, PartialEq, Eq)]
pub struct AssignedCell {
    pub value: Option<Fr>,
    pub cell: CircuitCell,
}

/// The integer an assigned cell's value encodes.
pub open spec fn cell_nat(c: AssignedCell) -> nat {
    fr_nat(c.value->0)
}

/// A value assigned inside the chip context, before replay.
#[derive(Clone, Copy, Debug, PartialEq, Eq)]
pub struct AssignedValue {
    pub value: Fr,
    pub cell: ContextCell,
}

/// A context-assigned boolean condition, such as an identity flag.
#[derive(Clone, Copy, Debug, PartialEq, Eq)]
pub struct AssignedCondition(pub AssignedValue);

/// A foreign-field element inside the context: four little-endian
/// 108-bit limbs, each held in its own context cell.
#[derive(Clone, Copy, Debug, PartialEq, Eq)]
pub struct AssignedFq {
    pub limbs_le: (AssignedValue, AssignedValue, AssignedValue, AssignedValue),
}

/// The integer a foreign-field element's limbs encode, base `2^108`.
pub open spec fn fq_value(fq: AssignedFq) -> nat {
    (fr_nat(fq.limbs_le.0.value) + fr_nat(fq.limbs_le.1.value) * pow2(108) + fr_nat(
        fq.limbs_le.2.value,
    ) * pow2(216) + fr_nat(fq.limbs_le.3.value) * pow2(324)) as nat
}

/// Every limb fits the agreed 108-bit width.
pub open spec fn fq_limbs_in_range(fq: AssignedFq) -> bool {
    &&& fr_nat(fq.limbs_le.0.value) < pow2(108)
    &&& fr_nat(fq.limbs_le.1.value) < pow2(108)
    &&& fr_nat(fq.limbs_le.2.value) < pow2(108)
    &&& fr_nat(fq.limbs_le.3.value) < pow2(108)
}

/// A base-curve point inside the context: affine coordinates and an
/// identity flag.
#[derive(Clone, Copy, Debug, PartialEq, Eq)]
pub struct AssignedPoint {
    pub x: AssignedFq,
    pub y: AssignedFq,
    pub z: AssignedCondition,
}

/// A twist-curve point inside the context: each coordinate has two
/// base-field components, plus an identity flag.
#[derive(Clone, Copy, Debug, PartialEq, Eq)]
pub struct AssignedG2Affine {
    pub x: (AssignedFq, AssignedFq),
    pub y: (AssignedFq, AssignedFq),
    pub z: AssignedCondition,
}

/// A degree-2 extension element: two base-field halves.
pub type AssignedFq2 = (AssignedFq, AssignedFq);

/// A degree-6 extension element: three degree-2 components.
pub type AssignedFq6 = (AssignedFq2, AssignedFq2, AssignedFq2);

/// A target-field element: two degree-6 components, twelve base-field
/// sub-elements in all.
pub type AssignedFq12 = (AssignedFq6, AssignedFq6);

/// Sub-element `s` of a target-field element, in the fixed traversal
/// order: the first degree-6 component's three degree-2 parts (each low
/// half then high half), then the second's.
pub open spec fn fq12_fq(r: AssignedFq12, s: int) -> AssignedFq {
    let six = if s < 6 {
        r.0
    } else {
        r.1
    };
    let rem = if s < 6 {
        s
    } else {
        s - 6
    };
    let two = if rem < 2 {
        six.0
    } else if rem < 4 {
        six.1
    } else {
        six.2
    };
    if rem % 2 == 0 {
        two.0
    } else {
        two.1
    }
}

/// Limb `j` of sub-element `s` of a target-field element.
pub open spec fn fq12_limb(r: AssignedFq12, s: int, j: int) -> AssignedValue {
    let fq = fq12_fq(r, s);
    if j == 0 {
        fq.limbs_le.0
    } else if j == 1 {
        fq.limbs_le.1
    } else if j == 2 {
        fq.limbs_le.2
    } else {
        fq.limbs_le.3
    }
}

} // verus!
