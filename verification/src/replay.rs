//! Record replay.
//!
//! Once all operations have been requested against a context, its deferred
//! records are replayed exactly once into circuit storage, using the
//! arithmetic primitive chip and the range-check chip. Replay yields a
//! lookup structure from (region, column, row) to the committed cell, which
//! the binder then uses to locate internal cells. Replay fails — fatally
//! for the whole building pass — when the chips provide too few rows or
//! columns for the records.
use vstd::prelude::*;

verus! {

use crate::Error;
use crate::cell::{AssignedCell, CircuitCell, ContextCell, circ};
use crate::context::{Record, VAR_COLUMNS};
use crate::layouter::Region;

/// Configuration of the arithmetic primitive chip: how many rows its
/// region offers.
#[derive(Clone, Copy, Debug, PartialEq, Eq, Structural)]
pub struct BaseChipConfig {
    pub max_rows: usize,
}

/// Configuration of the range-check chip.
#[derive(Clone, Copy, Debug, PartialEq, Eq, Structural)]
pub struct RangeChipConfig {
    pub max_rows: usize,
}

/// The arithmetic primitive chip, as far as replay needs it.
#[derive(Clone, Copy, Debug, PartialEq, Eq, Structural)]
pub struct BaseChip {
    pub config: BaseChipConfig,
}

impl BaseChip {
    pub fn new(config: BaseChipConfig) -> (r: BaseChip)
        ensures
            r.config == config,
    {
        BaseChip { config }
    }
}

/// The range-check chip. In this model every deferred record is a
/// base-region assignment — range gates are part of the arithmetic chip's
/// own computation — so replay takes the chip but draws no capacity from
/// it.
#[derive(Clone, Copy, Debug, PartialEq, Eq, Structural)]
pub struct RangeChip {
    pub config: RangeChipConfig,
}

impl RangeChip {
    pub fn new(config: RangeChipConfig) -> (r: RangeChip)
        ensures
            r.config == config,
    {
        RangeChip { config }
    }
}

/// Whether a context cell fits the storage the chips provide.
pub open spec fn record_fits(c: ContextCell, max_rows: nat) -> bool {
    c.region == 0 && c.col < VAR_COLUMNS && c.row < max_rows
}

/// Whether every record fits the storage the chips provide.
pub open spec fn records_fit(records: Seq<Record>, max_rows: nat) -> bool {
    forall|k: int| 0 <= k < records.len() ==> record_fits((#[trigger] records[k]).cell, max_rows)
}

/// Whether no two records target the same context cell.
pub open spec fn distinct_cells(records: Seq<Record>) -> bool {
    forall|k1: int, k2: int|
        0 <= k1 < k2 < records.len() ==> (#[trigger] records[k1]).cell != (
        #[trigger] records[k2]).cell
}

/// The committed cell that replaying a record produces: the record's value,
/// at the circuit position mirroring its context cell.
pub open spec fn committed(rec: Record) -> AssignedCell {
    AssignedCell { value: Some(rec.value), cell: circ(rec.cell) }
}

/// What the replay lookup structure holds at a context cell.
pub open spec fn lookup_spec(
    cells: Vec<Vec<Vec<Option<AssignedCell>>>>,
    c: ContextCell,
) -> Option<AssignedCell> {
    if c.region < cells@.len() && c.col < cells@[c.region as int]@.len() && c.row < cells@[
        c.region as int
    ]@[c.col as int]@.len() {
        cells@[c.region as int]@[c.col as int]@[c.row as int]
    } else {
        None
    }
}

/// Whether a lookup slot correctly reflects the record list at one
/// context cell: it holds the committed form of the record targeting the
/// cell, or nothing when no record does.
pub open spec fn slot_matches(
    records: Seq<Record>,
    c: ContextCell,
    slot: Option<AssignedCell>,
) -> bool {
    match slot {
        Some(ac) => exists|k: int|
            0 <= k < records.len() && (#[trigger] records[k]).cell == c && ac == committed(
                records[k],
            ),
        None => forall|k: int| 0 <= k < records.len() ==> (#[trigger] records[k]).cell != c,
    }
}

/// Finds the record targeting the given base-region cell and returns its
/// committed form.
fn find_committed(records: &Vec<Record>, col: usize, row: usize) -> (r: Option<AssignedCell>)
    ensures
        slot_matches(records@, ContextCell { region: 0, col, row }, r),
{
    let target = ContextCell { region: 0, col, row };
    let n = records.len();
    let mut k: usize = 0;
    while k < n
        invariant
            0 <= k <= n,
            n == records@.len(),
            target == (ContextCell { region: 0, col, row }),
            forall|j: int| 0 <= j < k ==> (#[trigger] records@[j]).cell != target,
        decreases n - k,
    {
        let rec = records[k];
        if rec.cell == target {
            let ac = AssignedCell {
                value: Some(rec.value),
                cell: CircuitCell { region: rec.cell.region, col: rec.cell.col, row: rec.cell.row },
            };
            proof {
                assert(records@[k as int].cell == target && ac == committed(records@[k as int]));
            }
            return Some(ac);
        }
        k = k + 1;
    }
    None
}

/// Replays a record list into circuit storage: commits every record's
/// value into the region and returns the lookup structure from context
/// cells to committed cells. Fails, without touching the region, when a
/// record needs a row or column the chips do not provide.
pub fn assign_all(
    records: &Vec<Record>,
    region: &mut Region,
    base_chip: &BaseChip,
    range_chip: &RangeChip,
) -> (r: Result<Vec<Vec<Vec<Option<AssignedCell>>>>, Error>)
    requires
        distinct_cells(records@),
    ensures
        r is Ok <==> records_fit(records@, base_chip.config.max_rows as nat),
        r is Err ==> r->Err_0 is Capacity && *final(region) == *old(region),
        r is Ok ==> {
            &&& forall|k: int|
                0 <= k < records@.len() ==> lookup_spec(r->Ok_0, (#[trigger] records@[k]).cell)
                    == Some(committed(records@[k]))
            &&& forall|c: ContextCell| slot_matches(records@, c, #[trigger] lookup_spec(r->Ok_0, c))
            &&& final(region).constraints == old(region).constraints
            &&& final(region).cells@.len() == old(region).cells@.len() + records@.len()
            &&& forall|i: int|
                0 <= i < old(region).cells@.len() ==> final(region).cells@[i] == old(
                    region,
                ).cells@[i]
            &&& forall|k: int|
                0 <= k < records@.len() ==> final(region).cells@[old(region).cells@.len() + k]
                    == committed(#[trigger] records@[k])
        },
{
    let max_rows = base_chip.config.max_rows;
    let n = records.len();
    let mut k: usize = 0;
    while k < n
        invariant
            0 <= k <= n,
            n == records@.len(),
            max_rows == base_chip.config.max_rows,
            forall|j: int|
                0 <= j < k ==> record_fits((#[trigger] records@[j]).cell, max_rows as nat),
        decreases n - k,
    {
        let c = records[k].cell;
        if !(c.region == 0 && c.col < VAR_COLUMNS && c.row < max_rows) {
            return Err(Error::Capacity);
        }
        k = k + 1;
    }
    let mut region_grid: Vec<Vec<Option<AssignedCell>>> = Vec::new();
    let mut col: usize = 0;
    while col < VAR_COLUMNS
        invariant
            0 <= col <= VAR_COLUMNS,
            region_grid@.len() == col,
            forall|c: int| 0 <= c < col ==> #[trigger] region_grid@[c]@.len() == max_rows,
            forall|c: int, w: int|
                0 <= c < col && 0 <= w < max_rows ==> slot_matches(
                    records@,
                    ContextCell { region: 0, col: c as usize, row: w as usize },
                    #[trigger] region_grid@[c]@[w],
                ),
        decreases VAR_COLUMNS - col,
    {
        let mut column: Vec<Option<AssignedCell>> = Vec::new();
        let mut row: usize = 0;
        while row < max_rows
            invariant
                0 <= row <= max_rows,
                column@.len() == row,
                forall|w: int|
                    0 <= w < row ==> slot_matches(
                        records@,
                        ContextCell { region: 0, col, row: w as usize },
                        #[trigger] column@[w],
                    ),
            decreases max_rows - row,
        {
            column.push(find_committed(records, col, row));
            row = row + 1;
        }
        region_grid.push(column);
        col = col + 1;
    }
    let mut cells: Vec<Vec<Vec<Option<AssignedCell>>>> = Vec::new();
    cells.push(region_grid);
    let ghost base = region.cells@.len() as int;
    let mut k2: usize = 0;
    while k2 < n
        invariant
            0 <= k2 <= n,
            n == records@.len(),
            base == old(region).cells@.len(),
            region.constraints == old(region).constraints,
            region.cells@.len() == base + k2,
            forall|i: int| 0 <= i < base ==> region.cells@[i] == old(region).cells@[i],
            forall|j: int|
                0 <= j < k2 ==> region.cells@[base + j] == committed(#[trigger] records@[j]),
        decreases n - k2,
    {
        let rec = records[k2];
        region.cells.push(
            AssignedCell {
                value: Some(rec.value),
                cell: CircuitCell { region: rec.cell.region, col: rec.cell.col, row: rec.cell.row },
            },
        );
        k2 = k2 + 1;
    }
    proof {
        assert forall|k3: int| 0 <= k3 < records@.len() implies lookup_spec(
            cells,
            (#[trigger] records@[k3]).cell,
        ) == Some(committed(records@[k3])) by {
            let c = records@[k3].cell;
            assert(record_fits(c, max_rows as nat));
            let slot = cells@[0]@[c.col as int]@[c.row as int];
            assert(slot_matches(records@, ContextCell { region: 0, col: c.col, row: c.row }, slot));
            assert(ContextCell { region: 0, col: c.col, row: c.row } == c);
            match slot {
                Some(ac) => {
                    let k4 = choose|k4: int|
                        0 <= k4 < records@.len() && (#[trigger] records@[k4]).cell == c && ac
                            == committed(records@[k4]);
                    assert(k4 == k3);
                },
                None => {
                    assert(records@[k3].cell == c);
                    assert(false);
                },
            }
        }
        assert forall|c: ContextCell| slot_matches(records@, c, #[trigger] lookup_spec(cells, c)) by {
            if c.region < cells@.len() && c.col < cells@[c.region as int]@.len() && c.row < cells@[
                c.region as int
            ]@[c.col as int]@.len() {
                assert(c.region == 0 && c.col < VAR_COLUMNS && c.row < max_rows);
                assert(slot_matches(
                    records@,
                    ContextCell { region: 0, col: c.col, row: c.row },
                    cells@[0]@[c.col as int]@[c.row as int],
                ));
                assert(ContextCell { region: 0, col: c.col, row: c.row } == c);
            } else {
                assert forall|k5: int| 0 <= k5 < records@.len() implies (
                #[trigger] records@[k5]).cell != c by {
                    assert(record_fits(records@[k5].cell, max_rows as nat));
                }
            }
        }
    }
    Ok(cells)
}

} // verus!
