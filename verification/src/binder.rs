//! The consistency binder.
//!
//! After replay, every limb and flag produced inside the context has a
//! committed internal cell. The binder looks each one up in the replay
//! structure and asserts a copy constraint between the externally supplied
//! operand cell and the internal cell, mirroring the external layout
//! exactly: a base point binds its 9 cells (4 x-limbs, 4 y-limbs, flag), a
//! twist point its 17, the pairing result its 48, all in index order.
use vstd::prelude::*;

verus! {

use crate::Error;
use crate::cell::{
    AssignedCell,
    AssignedFq,
    AssignedFq12,
    AssignedG2Affine,
    AssignedPoint,
    AssignedValue,
    CircuitCell,
    ContextCell,
};
use crate::context::fq12_cell;
use crate::layouter::Region;
use crate::replay::lookup_spec;

/// Whether the replay structure has a committed cell for this assigned
/// value.
pub open spec fn present(cells: Vec<Vec<Vec<Option<AssignedCell>>>>, c: ContextCell) -> bool {
    lookup_spec(cells, c) is Some
}

/// The copy-constraint pair binding an external cell to the committed
/// internal cell of a context cell.
pub open spec fn bound_pair(
    cells: Vec<Vec<Vec<Option<AssignedCell>>>>,
    external: AssignedCell,
    c: ContextCell,
) -> (CircuitCell, CircuitCell) {
    (external.cell, lookup_spec(cells, c).unwrap().cell)
}

/// Whether all four limb cells of a foreign-field element are present in
/// the replay structure.
pub open spec fn fq_present(cells: Vec<Vec<Vec<Option<AssignedCell>>>>, fq: AssignedFq) -> bool {
    &&& present(cells, fq.limbs_le.0.cell)
    &&& present(cells, fq.limbs_le.1.cell)
    &&& present(cells, fq.limbs_le.2.cell)
    &&& present(cells, fq.limbs_le.3.cell)
}

/// Whether all nine cells of a base point are present.
pub open spec fn point_present(
    cells: Vec<Vec<Vec<Option<AssignedCell>>>>,
    p: AssignedPoint,
) -> bool {
    fq_present(cells, p.x) && fq_present(cells, p.y) && present(cells, p.z.0.cell)
}

/// Whether all seventeen cells of a twist point are present.
pub open spec fn g2_present(
    cells: Vec<Vec<Vec<Option<AssignedCell>>>>,
    p: AssignedG2Affine,
) -> bool {
    &&& fq_present(cells, p.x.0)
    &&& fq_present(cells, p.x.1)
    &&& fq_present(cells, p.y.0)
    &&& fq_present(cells, p.y.1)
    &&& present(cells, p.z.0.cell)
}

/// Whether all forty-eight limb cells of a target-field element are
/// present.
pub open spec fn fq12_present(
    cells: Vec<Vec<Vec<Option<AssignedCell>>>>,
    f: AssignedFq12,
) -> bool {
    &&& fq_present(cells, f.0.0.0)
    &&& fq_present(cells, f.0.0.1)
    &&& fq_present(cells, f.0.1.0)
    &&& fq_present(cells, f.0.1.1)
    &&& fq_present(cells, f.0.2.0)
    &&& fq_present(cells, f.0.2.1)
    &&& fq_present(cells, f.1.0.0)
    &&& fq_present(cells, f.1.0.1)
    &&& fq_present(cells, f.1.1.0)
    &&& fq_present(cells, f.1.1.1)
    &&& fq_present(cells, f.1.2.0)
    &&& fq_present(cells, f.1.2.1)
}

/// A target-field element whose limb cells sit at 48 consecutive context
/// cells is fully present once the replay structure covers those cells.
pub proof fn lemma_fq12_present_from_cells(
    cells: Vec<Vec<Vec<Option<AssignedCell>>>>,
    f: AssignedFq12,
    base: int,
)
    requires
        forall|s: int, j: int|
            0 <= s < 12 && 0 <= j < 4 ==> #[trigger] fq12_cell(f, s, j) == crate::context::ctx_cell(
                base + 4 * s + j,
            ),
        forall|k: int|
            base <= k < base + 48 ==> present(cells, #[trigger] crate::context::ctx_cell(k)),
    ensures
        fq12_present(cells, f),
{
    assert forall|s: int, j: int| 0 <= s < 12 && 0 <= j < 4 implies present(
        cells,
        #[trigger] fq12_cell(f, s, j),
    ) by {
        assert(present(cells, crate::context::ctx_cell(base + 4 * s + j)));
    }
    assert(present(cells, fq12_cell(f, 0, 0)) && present(cells, fq12_cell(f, 0, 1)) && present(
        cells,
        fq12_cell(f, 0, 2),
    ) && present(cells, fq12_cell(f, 0, 3)));
    assert(present(cells, fq12_cell(f, 1, 0)) && present(cells, fq12_cell(f, 1, 1)) && present(
        cells,
        fq12_cell(f, 1, 2),
    ) && present(cells, fq12_cell(f, 1, 3)));
    assert(present(cells, fq12_cell(f, 2, 0)) && present(cells, fq12_cell(f, 2, 1)) && present(
        cells,
        fq12_cell(f, 2, 2),
    ) && present(cells, fq12_cell(f, 2, 3)));
    assert(present(cells, fq12_cell(f, 3, 0)) && present(cells, fq12_cell(f, 3, 1)) && present(
        cells,
        fq12_cell(f, 3, 2),
    ) && present(cells, fq12_cell(f, 3, 3)));
    assert(present(cells, fq12_cell(f, 4, 0)) && present(cells, fq12_cell(f, 4, 1)) && present(
        cells,
        fq12_cell(f, 4, 2),
    ) && present(cells, fq12_cell(f, 4, 3)));
    assert(present(cells, fq12_cell(f, 5, 0)) && present(cells, fq12_cell(f, 5, 1)) && present(
        cells,
        fq12_cell(f, 5, 2),
    ) && present(cells, fq12_cell(f, 5, 3)));
    assert(present(cells, fq12_cell(f, 6, 0)) && present(cells, fq12_cell(f, 6, 1)) && present(
        cells,
        fq12_cell(f, 6, 2),
    ) && present(cells, fq12_cell(f, 6, 3)));
    assert(present(cells, fq12_cell(f, 7, 0)) && present(cells, fq12_cell(f, 7, 1)) && present(
        cells,
        fq12_cell(f, 7, 2),
    ) && present(cells, fq12_cell(f, 7, 3)));
    assert(present(cells, fq12_cell(f, 8, 0)) && present(cells, fq12_cell(f, 8, 1)) && present(
        cells,
        fq12_cell(f, 8, 2),
    ) && present(cells, fq12_cell(f, 8, 3)));
    assert(present(cells, fq12_cell(f, 9, 0)) && present(cells, fq12_cell(f, 9, 1)) && present(
        cells,
        fq12_cell(f, 9, 2),
    ) && present(cells, fq12_cell(f, 9, 3)));
    assert(present(cells, fq12_cell(f, 10, 0)) && present(cells, fq12_cell(f, 10, 1)) && present(
        cells,
        fq12_cell(f, 10, 2),
    ) && present(cells, fq12_cell(f, 10, 3)));
    assert(present(cells, fq12_cell(f, 11, 0)) && present(cells, fq12_cell(f, 11, 1)) && present(
        cells,
        fq12_cell(f, 11, 2),
    ) && present(cells, fq12_cell(f, 11, 3)));
}

/// Looks a context cell up in the replay structure. A missing cell is the
/// fatal consistency failure of the replay contract: it means a deferred
/// cell was referenced but never produced.
pub fn get_cell_of_ctx(cells: &Vec<Vec<Vec<Option<AssignedCell>>>>, cell: &ContextCell) -> (r:
    Result<AssignedCell, Error>)
    ensures
        r is Ok <==> present(*cells, *cell),
        r is Ok ==> Some(r->Ok_0) == lookup_spec(*cells, *cell),
        r is Err ==> r->Err_0 is Consistency,
{
    if cell.region < cells.len() {
        let grid = &cells[cell.region];
        if cell.col < grid.len() {
            let column = &grid[cell.col];
            if cell.row < column.len() {
                return match column[cell.row] {
                    Some(ac) => Ok(ac),
                    None => Err(Error::Consistency),
                };
            }
        }
    }
    Err(Error::Consistency)
}

/// Binds one external cell to the committed internal cell of one assigned
/// value.
fn bind(
    region: &mut Region,
    cells: &Vec<Vec<Vec<Option<AssignedCell>>>>,
    av: &AssignedValue,
    external: &AssignedCell,
) -> (r: Result<(), Error>)
    requires
        present(*cells, av.cell),
    ensures
        r is Ok,
        final(region).cells == old(region).cells,
        final(region).constraints@ == old(region).constraints@.push(
            bound_pair(*cells, *external, av.cell),
        ),
{
    let internal = match get_cell_of_ctx(cells, &av.cell) {
        Ok(ac) => ac,
        Err(e) => { return Err(e) },
    };
    match region.constrain_equal(external.cell, internal.cell) {
        Ok(()) => Ok(()),
        Err(e) => Err(e),
    }
}

/// Binds the four limb cells of one foreign-field element to the four
/// external cells starting at `offset`, in index order.
pub fn enable_fq_permute(
    region: &mut Region,
    cells: &Vec<Vec<Vec<Option<AssignedCell>>>>,
    fq: &AssignedFq,
    input: &Vec<AssignedCell>,
    offset: usize,
) -> (r: Result<(), Error>)
    requires
        offset + 4 <= input@.len(),
        fq_present(*cells, *fq),
    ensures
        r is Ok,
        final(region).cells == old(region).cells,
        final(region).constraints@.len() == old(region).constraints@.len() + 4,
        forall|i: int| 0 <= i < old(region).constraints@.len() ==> final(region).constraints@[i]
            == old(region).constraints@[i],
        final(region).constraints@[old(region).constraints@.len() as int] == bound_pair(
            *cells,
            input@[offset as int],
            fq.limbs_le.0.cell,
        ),
        final(region).constraints@[old(region).constraints@.len() + 1 as int] == bound_pair(
            *cells,
            input@[offset + 1],
            fq.limbs_le.1.cell,
        ),
        final(region).constraints@[old(region).constraints@.len() + 2 as int] == bound_pair(
            *cells,
            input@[offset + 2],
            fq.limbs_le.2.cell,
        ),
        final(region).constraints@[old(region).constraints@.len() + 3 as int] == bound_pair(
            *cells,
            input@[offset + 3],
            fq.limbs_le.3.cell,
        ),
{
    let n = input.len();
    assert(offset + 4 <= n);
    match bind(region, cells, &fq.limbs_le.0, &input[offset]) {
        Ok(()) => (),
        Err(e) => { return Err(e) },
    }
    match bind(region, cells, &fq.limbs_le.1, &input[offset + 1]) {
        Ok(()) => (),
        Err(e) => { return Err(e) },
    }
    match bind(region, cells, &fq.limbs_le.2, &input[offset + 2]) {
        Ok(()) => (),
        Err(e) => { return Err(e) },
    }
    match bind(region, cells, &fq.limbs_le.3, &input[offset + 3]) {
        Ok(()) => (),
        Err(e) => { return Err(e) },
    }
    Ok(())
}

/// Binds a base point's nine cells — x-limbs, y-limbs, identity flag, in
/// index order — to the nine external operand cells.
pub fn enable_g1affine_permute(
    region: &mut Region,
    cells: &Vec<Vec<Vec<Option<AssignedCell>>>>,
    point: &AssignedPoint,
    input: &Vec<AssignedCell>,
) -> (r: Result<(), Error>)
    requires
        input@.len() == 9,
        point_present(*cells, *point),
    ensures
        r is Ok,
        final(region).cells == old(region).cells,
        final(region).constraints@.len() == old(region).constraints@.len() + 9,
        forall|i: int| 0 <= i < old(region).constraints@.len() ==> final(region).constraints@[i]
            == old(region).constraints@[i],
        forall|j: int|
            0 <= j < 4 ==> final(region).constraints@[old(region).constraints@.len() + j]
                == bound_pair(*cells, input@[j], #[trigger] fq_limb_cell(point.x, j)),
        forall|j: int|
            0 <= j < 4 ==> final(region).constraints@[old(region).constraints@.len() + 4 + j]
                == bound_pair(*cells, input@[4 + j], #[trigger] fq_limb_cell(point.y, j)),
        final(region).constraints@[old(region).constraints@.len() + 8 as int] == bound_pair(
            *cells,
            input@[8],
            point.z.0.cell,
        ),
{
    match enable_fq_permute(region, cells, &point.x, input, 0) {
        Ok(()) => (),
        Err(e) => { return Err(e) },
    }
    match enable_fq_permute(region, cells, &point.y, input, 4) {
        Ok(()) => (),
        Err(e) => { return Err(e) },
    }
    match bind(region, cells, &point.z.0, &input[8]) {
        Ok(()) => (),
        Err(e) => { return Err(e) },
    }
    Ok(())
}

/// Binds a twist point's seventeen cells — the four coordinate components'
/// limbs, then the identity flag — to the seventeen external operand
/// cells.
pub fn enable_g2affine_permute(
    region: &mut Region,
    cells: &Vec<Vec<Vec<Option<AssignedCell>>>>,
    point: &AssignedG2Affine,
    input: &Vec<AssignedCell>,
) -> (r: Result<(), Error>)
    requires
        input@.len() == 17,
        g2_present(*cells, *point),
    ensures
        r is Ok,
        final(region).cells == old(region).cells,
        final(region).constraints@.len() == old(region).constraints@.len() + 17,
        forall|i: int| 0 <= i < old(region).constraints@.len() ==> final(region).constraints@[i]
            == old(region).constraints@[i],
        forall|j: int|
            0 <= j < 4 ==> final(region).constraints@[old(region).constraints@.len() + j]
                == bound_pair(*cells, input@[j], #[trigger] fq_limb_cell(point.x.0, j)),
        forall|j: int|
            0 <= j < 4 ==> final(region).constraints@[old(region).constraints@.len() + 4 + j]
                == bound_pair(*cells, input@[4 + j], #[trigger] fq_limb_cell(point.x.1, j)),
        forall|j: int|
            0 <= j < 4 ==> final(region).constraints@[old(region).constraints@.len() + 8 + j]
                == bound_pair(*cells, input@[8 + j], #[trigger] fq_limb_cell(point.y.0, j)),
        forall|j: int|
            0 <= j < 4 ==> final(region).constraints@[old(region).constraints@.len() + 12 + j]
                == bound_pair(*cells, input@[12 + j], #[trigger] fq_limb_cell(point.y.1, j)),
        final(region).constraints@[old(region).constraints@.len() + 16 as int] == bound_pair(
            *cells,
            input@[16],
            point.z.0.cell,
        ),
{
    match enable_fq_permute(region, cells, &point.x.0, input, 0) {
        Ok(()) => (),
        Err(e) => { return Err(e) },
    }
    match enable_fq_permute(region, cells, &point.x.1, input, 4) {
        Ok(()) => (),
        Err(e) => { return Err(e) },
    }
    match enable_fq_permute(region, cells, &point.y.0, input, 8) {
        Ok(()) => (),
        Err(e) => { return Err(e) },
    }
    match enable_fq_permute(region, cells, &point.y.1, input, 12) {
        Ok(()) => (),
        Err(e) => { return Err(e) },
    }
    match bind(region, cells, &point.z.0, &input[16]) {
        Ok(()) => (),
        Err(e) => { return Err(e) },
    }
    Ok(())
}

/// Binds a target-field element's forty-eight limb cells to the
/// forty-eight external result cells, twelve sub-elements of four limbs
/// each, in the fixed traversal order.
pub fn enable_fq12_permute(
    region: &mut Region,
    cells: &Vec<Vec<Vec<Option<AssignedCell>>>>,
    fq12: &AssignedFq12,
    input: &Vec<AssignedCell>,
) -> (r: Result<(), Error>)
    requires
        input@.len() == 48,
        fq12_present(*cells, *fq12),
    ensures
        r is Ok,
        final(region).cells == old(region).cells,
        final(region).constraints@.len() == old(region).constraints@.len() + 48,
        forall|i: int| 0 <= i < old(region).constraints@.len() ==> final(region).constraints@[i]
            == old(region).constraints@[i],
        forall|s: int, j: int|
            0 <= s < 12 && 0 <= j < 4 ==> final(region).constraints@[old(
                region,
            ).constraints@.len() + 4 * s + j] == bound_pair(
                *cells,
                input@[4 * s + j],
                #[trigger] fq12_cell(*fq12, s, j),
            ),
{
    let f = *fq12;
    match enable_fq_permute(region, cells, &f.0.0.0, input, 0) {
        Ok(()) => (),
        Err(e) => { return Err(e) },
    }
    match enable_fq_permute(region, cells, &f.0.0.1, input, 4) {
        Ok(()) => (),
        Err(e) => { return Err(e) },
    }
    match enable_fq_permute(region, cells, &f.0.1.0, input, 8) {
        Ok(()) => (),
        Err(e) => { return Err(e) },
    }
    match enable_fq_permute(region, cells, &f.0.1.1, input, 12) {
        Ok(()) => (),
        Err(e) => { return Err(e) },
    }
    match enable_fq_permute(region, cells, &f.0.2.0, input, 16) {
        Ok(()) => (),
        Err(e) => { return Err(e) },
    }
    match enable_fq_permute(region, cells, &f.0.2.1, input, 20) {
        Ok(()) => (),
        Err(e) => { return Err(e) },
    }
    match enable_fq_permute(region, cells, &f.1.0.0, input, 24) {
        Ok(()) => (),
        Err(e) => { return Err(e) },
    }
    match enable_fq_permute(region, cells, &f.1.0.1, input, 28) {
        Ok(()) => (),
        Err(e) => { return Err(e) },
    }
    match enable_fq_permute(region, cells, &f.1.1.0, input, 32) {
        Ok(()) => (),
        Err(e) => { return Err(e) },
    }
    match enable_fq_permute(region, cells, &f.1.1.1, input, 36) {
        Ok(()) => (),
        Err(e) => { return Err(e) },
    }
    match enable_fq_permute(region, cells, &f.1.2.0, input, 40) {
        Ok(()) => (),
        Err(e) => { return Err(e) },
    }
    match enable_fq_permute(region, cells, &f.1.2.1, input, 44) {
        Ok(()) => (),
        Err(e) => { return Err(e) },
    }
    Ok(())
}

/// Limb `j` of a foreign-field element.
pub open spec fn limb_of(fq: AssignedFq, j: int) -> AssignedValue {
    if j == 0 {
        fq.limbs_le.0
    } else if j == 1 {
        fq.limbs_le.1
    } else if j == 2 {
        fq.limbs_le.2
    } else {
        fq.limbs_le.3
    }
}

/// The context cell of limb `j` of a foreign-field element.
pub open spec fn fq_limb_cell(fq: AssignedFq, j: int) -> ContextCell {
    limb_of(fq, j).cell
}

} // verus!
