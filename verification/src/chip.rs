//! The pairing-check gadget chip.
//!
//! `load_bls381_pair_circuit` is the gadget's whole building pass: it
//! creates a fresh context, loads the base point, the twist point requests
//! the pairing, replays the context's records into a fresh region, binds
//! the external operand cells to the committed internal cells, and closes
//! the region. Its contract pins every committed cell and every copy
//! constraint to a function of the operand cells alone, which is what
//! makes two building passes on equal inputs structurally identical.
use vstd::prelude::*;

verus! {

use crate::Error;
use crate::binder::{
    fq_limb_cell,
    bound_pair,
    enable_fq12_permute,
    enable_g1affine_permute,
    enable_g2affine_permute,
    g2_present,
    lemma_fq12_present_from_cells,
    point_present,
    present,
};
use crate::cell::{AssignedCell, AssignedFq12, AssignedG2Affine, AssignedPoint, CircuitCell, circ};
use crate::context::{EccContext, Record, VAR_COLUMNS, ctx_cell, fq12_cell, lemma_ctx_cell_injective};
use crate::codec::cells_assigned;
use crate::layouter::{Layouter, Region};
use crate::loader::{g1_record_nat, g2_record_nat, get_g1_from_cells, get_g2_from_cells};
use crate::replay::{
    BaseChip,
    BaseChipConfig,
    RangeChip,
    RangeChipConfig,
    assign_all,
    committed,
    distinct_cells,
    lookup_spec,
    records_fit,
};
use crate::value::{Fr, fr_nat};

/// A shared advice column of the operand table.
#[derive(Clone, Copy, Debug, PartialEq, Eq, Structural)]
pub struct AdviceColumn {
    pub index: usize,
}

/// A fixed column of the operand table.
#[derive(Clone, Copy, Debug, PartialEq, Eq, Structural)]
pub struct FixedColumn {
    pub index: usize,
}

/// Configuration of the pairing gadget: the two collaborating chips'
/// configurations, packaged together.
#[derive(Clone, Copy, Debug, PartialEq, Eq, Structural)]
pub struct Bls381ChipConfig {
    pub base_chip_config: BaseChipConfig,
    pub range_chip_config: RangeChipConfig,
}

/// The pairing-check gadget chip.
#[derive(Clone, Copy, Debug, PartialEq, Eq, Structural)]
pub struct Bls381PairChip {
    pub config: Bls381ChipConfig,
}

/// Context records a full gadget invocation creates: 9 for the base
/// point, 17 for the twist point, 48 for the pairing result.
pub const PAIR_GADGET_RECORDS: usize = 9 + 17 + 48;

/// Whether the chips provide enough rows for one gadget invocation.
pub open spec fn gadget_fits(max_rows: nat) -> bool {
    ctx_cell(PAIR_GADGET_RECORDS as int - 1).row < max_rows
}

/// The value committed at cell `k` of a gadget invocation on the given
/// operands: base-point limbs and flag, twist-point limbs and flag, then
/// the chip-computed pairing result (zero placeholders in this model).
pub open spec fn gadget_cell_nat(
    a: Seq<AssignedCell>,
    b: Seq<AssignedCell>,
    ab: Seq<AssignedCell>,
    k: int,
) -> nat {
    if k < 9 {
        g1_record_nat(a, k)
    } else if k < 26 {
        g2_record_nat(b, k - 9)
    } else {
        0
    }
}

/// Every copy constraint one gadget invocation asserts, in order: the 9
/// base-point cells, the 17 twist-point cells when that binding is on,
/// then the 48 result cells, each external cell paired with the committed
/// position of its internal counterpart.
pub open spec fn expected_constraints(
    a: Seq<AssignedCell>,
    b: Seq<AssignedCell>,
    ab: Seq<AssignedCell>,
    bind_g2: bool,
) -> Seq<(CircuitCell, CircuitCell)> {
    let g1 = Seq::new(9, |t: int| (a[t].cell, circ(ctx_cell(t))));
    let g2 = if bind_g2 {
        Seq::new(17, |t: int| (b[t].cell, circ(ctx_cell(9 + t))))
    } else {
        Seq::empty()
    };
    let res = Seq::new(48, |t: int| (ab[t].cell, circ(ctx_cell(26 + t))));
    g1 + g2 + res
}

/// What a successful building pass leaves behind: exactly one new region
/// whose committed cells and copy constraints are functions of the
/// operand cells alone.
pub open spec fn load_ok_post(
    pre: Layouter,
    post: Layouter,
    a: Seq<AssignedCell>,
    b: Seq<AssignedCell>,
    ab: Seq<AssignedCell>,
    bind_g2: bool,
) -> bool {
    &&& post.regions@.len() == pre.regions@.len() + 1
    &&& forall|i: int| 0 <= i < pre.regions@.len() ==> post.regions@[i] == pre.regions@[i]
    &&& post.regions@[pre.regions@.len() as int].constraints@ == expected_constraints(
        a,
        b,
        ab,
        bind_g2,
    )
    &&& post.regions@[pre.regions@.len() as int].cells@.len() == PAIR_GADGET_RECORDS
    &&& forall|k: int|
        0 <= k < PAIR_GADGET_RECORDS ==> (#[trigger] post.regions@[pre.regions@.len() as int].cells@[k]).cell
            == circ(ctx_cell(k))
    &&& forall|k: int|
        0 <= k < PAIR_GADGET_RECORDS ==> (#[trigger] post.regions@[pre.regions@.len() as int].cells@[k]).value
            is Some
    &&& forall|k: int|
        0 <= k < PAIR_GADGET_RECORDS ==> fr_nat(
            (#[trigger] post.regions@[pre.regions@.len() as int].cells@[k]).value->0,
        ) == gadget_cell_nat(a, b, ab, k)
}

/// Whether all the external operand cells of one invocation are pairwise
/// distinct locations, as distinct operand-table rows are.
pub open spec fn operand_cells_distinct(
    a: Seq<AssignedCell>,
    b: Seq<AssignedCell>,
    ab: Seq<AssignedCell>,
) -> bool {
    forall|i: int, j: int|
        0 <= i < j < (a + b + ab).len() ==> ((a + b + ab)[i]).cell != ((a + b + ab)[j]).cell
}

/// The operand index whose cell the `t`-th copy constraint binds, counting
/// the operands as base point, twist point, result; when the twist binding
/// is off, the seventeen twist cells are skipped. The internal cell of
/// constraint `t` is the committed image of the context cell with this
/// same index.
pub open spec fn bound_operand_index(t: int, bind_g2: bool) -> int {
    if bind_g2 || t < 9 {
        t
    } else {
        t + 17
    }
}

/// Binding completeness: a successful invocation binds every external
/// operand cell — 9 for the base point, 17 for the twist point when that
/// binding is on, 48 for the result — by exactly one copy constraint, each
/// to its own committed internal cell: no external cell is left unbound,
/// none is bound twice, and no internal cell serves two externals.
pub proof fn lemma_binding_complete(
    a: Seq<AssignedCell>,
    b: Seq<AssignedCell>,
    ab: Seq<AssignedCell>,
    bind_g2: bool,
)
    requires
        a.len() == 9,
        b.len() == 17,
        ab.len() == 48,
        operand_cells_distinct(a, b, ab),
    ensures
        expected_constraints(a, b, ab, bind_g2).len() == (if bind_g2 {
            74int
        } else {
            57int
        }),
        forall|t: int|
            0 <= t < 9 ==> (#[trigger] expected_constraints(a, b, ab, bind_g2)[t]).0 == a[t].cell,
        bind_g2 ==> forall|t: int|
            9 <= t < 26 ==> (#[trigger] expected_constraints(a, b, ab, bind_g2)[t]).0 == b[t
                - 9].cell,
        forall|t: int|
            9 <= t < expected_constraints(a, b, ab, bind_g2).len() && (bind_g2 ==> t >= 26) ==> (
            #[trigger] expected_constraints(a, b, ab, bind_g2)[t]).0 == ab[bound_operand_index(
                t,
                bind_g2,
            ) - 26].cell,
        forall|t1: int, t2: int|
            0 <= t1 < t2 < expected_constraints(a, b, ab, bind_g2).len() ==> (
            #[trigger] expected_constraints(a, b, ab, bind_g2)[t1]).0 != (
            #[trigger] expected_constraints(a, b, ab, bind_g2)[t2]).0,
        forall|t1: int, t2: int|
            0 <= t1 < t2 < expected_constraints(a, b, ab, bind_g2).len() ==> (
            #[trigger] expected_constraints(a, b, ab, bind_g2)[t1]).1 != (
            #[trigger] expected_constraints(a, b, ab, bind_g2)[t2]).1,
{
    let cs = expected_constraints(a, b, ab, bind_g2);
    let all = a + b + ab;
    let g2len: int = if bind_g2 {
        17
    } else {
        0
    };
    assert(cs.len() == 9 + g2len + 48);
    assert forall|t: int| 0 <= t < cs.len() implies #[trigger] cs[t] == (
        all[bound_operand_index(t, bind_g2)].cell,
        circ(ctx_cell(bound_operand_index(t, bind_g2))),
    ) by {
        if t < 9 {
            assert(all[t] == a[t]);
        } else if t < 9 + g2len {
            assert(all[t] == b[t - 9]);
        } else {
            let u = t - 9 - g2len;
            assert(all[26 + u] == ab[u]);
            assert(cs[t] == (ab[u].cell, circ(ctx_cell(26 + u))));
        }
    }
    assert forall|t1: int, t2: int| 0 <= t1 < t2 < cs.len() implies (#[trigger] cs[t1]).0 != (
    #[trigger] cs[t2]).0 by {
        let i1 = bound_operand_index(t1, bind_g2);
        let i2 = bound_operand_index(t2, bind_g2);
        assert(0 <= i1 < i2 < all.len());
        assert(all[i1].cell != all[i2].cell);
    }
    assert forall|t1: int, t2: int| 0 <= t1 < t2 < cs.len() implies (#[trigger] cs[t1]).1 != (
    #[trigger] cs[t2]).1 by {
        let m1 = bound_operand_index(t1, bind_g2);
        let m2 = bound_operand_index(t2, bind_g2);
        assert(cs[t1].1 == circ(ctx_cell(m1)));
        assert(cs[t2].1 == circ(ctx_cell(m2)));
        assert(0 <= m1 < m2 <= 73);
        if circ(ctx_cell(m1)) == circ(ctx_cell(m2)) {
            assert(ctx_cell(m1) == ctx_cell(m2));
            lemma_ctx_cell_injective(m1, m2);
        }
    }
}

/// Determinism: two successful building passes over identical operand
/// cells commit structurally identical cells and assert identical copy
/// constraints, whatever layouters they started from. No state flows from
/// one invocation into the next: each pass works in a fresh context.
pub proof fn lemma_build_deterministic(
    pre1: Layouter,
    post1: Layouter,
    pre2: Layouter,
    post2: Layouter,
    a: Seq<AssignedCell>,
    b: Seq<AssignedCell>,
    ab: Seq<AssignedCell>,
    bind_g2: bool,
)
    requires
        load_ok_post(pre1, post1, a, b, ab, bind_g2),
        load_ok_post(pre2, post2, a, b, ab, bind_g2),
    ensures
        post1.regions@[pre1.regions@.len() as int].constraints@ == post2.regions@[pre2.regions@.len() as int].constraints@,
        post1.regions@[pre1.regions@.len() as int].cells@ == post2.regions@[pre2.regions@.len() as int].cells@,
{
    let r1 = post1.regions@[pre1.regions@.len() as int];
    let r2 = post2.regions@[pre2.regions@.len() as int];
    assert forall|k: int| 0 <= k < PAIR_GADGET_RECORDS implies (#[trigger] r1.cells@[k])
        == r2.cells@[k] by {
        let c1 = r1.cells@[k];
        let c2 = r2.cells@[k];
        assert(c1.cell == circ(ctx_cell(k)) && c2.cell == circ(ctx_cell(k)));
        assert(c1.value is Some && c2.value is Some);
        assert(fr_nat(c1.value->0) == gadget_cell_nat(a, b, ab, k));
        assert(fr_nat(c2.value->0) == gadget_cell_nat(a, b, ab, k));
        crate::value::lemma_fr_nat_injective(c1.value->0, c2.value->0);
        assert(c1 == (AssignedCell { value: c1.value, cell: c1.cell }));
        assert(c2 == (AssignedCell { value: c2.value, cell: c2.cell }));
    }
    assert(r1.cells@ =~= r2.cells@);
}

/// The record list of one gadget invocation: its cells are pairwise
/// distinct, and it fits the chips exactly when the whole invocation
/// does.
proof fn lemma_records_shape(records: Seq<Record>, max_rows: nat)
    requires
        records.len() == PAIR_GADGET_RECORDS,
        forall|k: int| 0 <= k < records.len() ==> (#[trigger] records[k]).cell == ctx_cell(k),
    ensures
        distinct_cells(records),
        records_fit(records, max_rows) <==> gadget_fits(max_rows),
{
    assert forall|k1: int, k2: int| 0 <= k1 < k2 < records.len() implies (
    #[trigger] records[k1]).cell != (#[trigger] records[k2]).cell by {
        if records[k1].cell == records[k2].cell {
            lemma_ctx_cell_injective(k1, k2);
        }
    }
    if gadget_fits(max_rows) {
        assert forall|k: int| 0 <= k < records.len() implies crate::replay::record_fits(
            (#[trigger] records[k]).cell,
            max_rows,
        ) by {
            vstd::arithmetic::div_mod::lemma_div_is_ordered(k, 73, VAR_COLUMNS as int);
            vstd::arithmetic::div_mod::lemma_div_pos_is_pos(k, VAR_COLUMNS as int);
            vstd::arithmetic::div_mod::lemma_mod_bound(k, VAR_COLUMNS as int);
        }
    } else {
        assert(records[73].cell == ctx_cell(73));
        assert(!crate::replay::record_fits(records[73].cell, max_rows));
    }
}

/// Runs the whole binding stage over a freshly replayed region: the base
/// point's cells, optionally the twist point's, then the result's, in the
/// fixed order. The ghost record list carries what replay guaranteed about
/// the lookup structure.
#[verifier::rlimit(100)]
#[verifier::spinoff_prover]
fn bind_all(
    region: &mut Region,
    cells: &Vec<Vec<Vec<Option<AssignedCell>>>>,
    a_g1: &AssignedPoint,
    b_g2: &AssignedG2Affine,
    ab_fq12: &AssignedFq12,
    a: &Vec<AssignedCell>,
    b: &Vec<AssignedCell>,
    ab: &Vec<AssignedCell>,
    bind_g2: bool,
    records: Ghost<Seq<Record>>,
) -> (r: Result<(), Error>)
    requires
        old(region).constraints@.len() == 0,
        a@.len() == 9,
        b@.len() == 17,
        ab@.len() == 48,
        records@.len() == PAIR_GADGET_RECORDS,
        forall|k: int| 0 <= k < records@.len() ==> (#[trigger] records@[k]).cell == ctx_cell(k),
        forall|k: int|
            0 <= k < records@.len() ==> lookup_spec(*cells, (#[trigger] records@[k]).cell) == Some(
                committed(records@[k]),
            ),
        a_g1.x.limbs_le.0.cell == ctx_cell(0),
        a_g1.x.limbs_le.1.cell == ctx_cell(1),
        a_g1.x.limbs_le.2.cell == ctx_cell(2),
        a_g1.x.limbs_le.3.cell == ctx_cell(3),
        a_g1.y.limbs_le.0.cell == ctx_cell(4),
        a_g1.y.limbs_le.1.cell == ctx_cell(5),
        a_g1.y.limbs_le.2.cell == ctx_cell(6),
        a_g1.y.limbs_le.3.cell == ctx_cell(7),
        a_g1.z.0.cell == ctx_cell(8),
        b_g2.x.0.limbs_le.0.cell == ctx_cell(9),
        b_g2.x.0.limbs_le.1.cell == ctx_cell(10),
        b_g2.x.0.limbs_le.2.cell == ctx_cell(11),
        b_g2.x.0.limbs_le.3.cell == ctx_cell(12),
        b_g2.x.1.limbs_le.0.cell == ctx_cell(13),
        b_g2.x.1.limbs_le.1.cell == ctx_cell(14),
        b_g2.x.1.limbs_le.2.cell == ctx_cell(15),
        b_g2.x.1.limbs_le.3.cell == ctx_cell(16),
        b_g2.y.0.limbs_le.0.cell == ctx_cell(17),
        b_g2.y.0.limbs_le.1.cell == ctx_cell(18),
        b_g2.y.0.limbs_le.2.cell == ctx_cell(19),
        b_g2.y.0.limbs_le.3.cell == ctx_cell(20),
        b_g2.y.1.limbs_le.0.cell == ctx_cell(21),
        b_g2.y.1.limbs_le.1.cell == ctx_cell(22),
        b_g2.y.1.limbs_le.2.cell == ctx_cell(23),
        b_g2.y.1.limbs_le.3.cell == ctx_cell(24),
        b_g2.z.0.cell == ctx_cell(25),
        forall|s: int, j: int|
            0 <= s < 12 && 0 <= j < 4 ==> #[trigger] fq12_cell(*ab_fq12, s, j) == ctx_cell(
                26 + 4 * s + j,
            ),
    ensures
        r is Ok,
        final(region).cells == old(region).cells,
        final(region).constraints@ == expected_constraints(a@, b@, ab@, bind_g2),
{
    proof {
        assert forall|k: int| 0 <= k < 74 implies present(*cells, #[trigger] ctx_cell(k)) by {
            assert(records@[k].cell == ctx_cell(k));
            assert(lookup_spec(*cells, records@[k].cell) == Some(committed(records@[k])));
        }
        assert(point_present(*cells, *a_g1)) by {
            assert(present(*cells, ctx_cell(0)) && present(*cells, ctx_cell(1)) && present(
                *cells,
                ctx_cell(2),
            ) && present(*cells, ctx_cell(3)) && present(*cells, ctx_cell(4)) && present(
                *cells,
                ctx_cell(5),
            ) && present(*cells, ctx_cell(6)) && present(*cells, ctx_cell(7)) && present(
                *cells,
                ctx_cell(8),
            ));
        }
        assert(g2_present(*cells, *b_g2)) by {
            assert(present(*cells, ctx_cell(9)) && present(*cells, ctx_cell(10)) && present(
                *cells,
                ctx_cell(11),
            ) && present(*cells, ctx_cell(12)) && present(*cells, ctx_cell(13)) && present(
                *cells,
                ctx_cell(14),
            ) && present(*cells, ctx_cell(15)) && present(*cells, ctx_cell(16)) && present(
                *cells,
                ctx_cell(17),
            ) && present(*cells, ctx_cell(18)) && present(*cells, ctx_cell(19)) && present(
                *cells,
                ctx_cell(20),
            ) && present(*cells, ctx_cell(21)) && present(*cells, ctx_cell(22)) && present(
                *cells,
                ctx_cell(23),
            ) && present(*cells, ctx_cell(24)) && present(*cells, ctx_cell(25)));
        }
        lemma_fq12_present_from_cells(*cells, *ab_fq12, 26);
    }
    match enable_g1affine_permute(region, cells, a_g1, a) {
        Ok(()) => (),
        Err(e) => {
            return Err(e);
        },
    }
    if bind_g2 {
        match enable_g2affine_permute(region, cells, b_g2, b) {
            Ok(()) => (),
            Err(e) => {
                return Err(e);
            },
        }
    }
    match enable_fq12_permute(region, cells, ab_fq12, ab) {
        Ok(()) => (),
        Err(e) => {
            return Err(e);
        },
    }
    proof {
        let cs = expected_constraints(a@, b@, ab@, bind_g2);
        let g2len: int = if bind_g2 {
            17
        } else {
            0
        };
        assert(region.constraints@.len() == 9 + g2len + 48);
        assert(cs.len() == 9 + g2len + 48);
        assert forall|t: int| 0 <= t < cs.len() implies region.constraints@[t] == cs[t] by {
            if t < 9 {
                assert(records@[t].cell == ctx_cell(t));
                assert(lookup_spec(*cells, records@[t].cell) == Some(committed(records@[t])));
                if t < 4 {
                    assert(fq_limb_cell(a_g1.x, t) == ctx_cell(t));
                    assert(region.constraints@[t] == bound_pair(
                        *cells,
                        a@[t],
                        fq_limb_cell(a_g1.x, t),
                    ));
                } else if t < 8 {
                    assert(fq_limb_cell(a_g1.y, t - 4) == ctx_cell(t));
                    assert(region.constraints@[4 + (t - 4)] == bound_pair(
                        *cells,
                        a@[4 + (t - 4)],
                        fq_limb_cell(a_g1.y, t - 4),
                    ));
                }
                assert(cs[t] == (a@[t].cell, circ(ctx_cell(t))));
            } else if t < 9 + g2len {
                let u = t - 9;
                assert(records@[t].cell == ctx_cell(t));
                assert(lookup_spec(*cells, records@[t].cell) == Some(committed(records@[t])));
                if u < 4 {
                    assert(fq_limb_cell(b_g2.x.0, u) == ctx_cell(9 + u));
                    assert(region.constraints@[9 + u] == bound_pair(
                        *cells,
                        b@[u],
                        fq_limb_cell(b_g2.x.0, u),
                    ));
                } else if u < 8 {
                    assert(fq_limb_cell(b_g2.x.1, u - 4) == ctx_cell(9 + u));
                    assert(region.constraints@[9 + 4 + (u - 4)] == bound_pair(
                        *cells,
                        b@[4 + (u - 4)],
                        fq_limb_cell(b_g2.x.1, u - 4),
                    ));
                } else if u < 12 {
                    assert(fq_limb_cell(b_g2.y.0, u - 8) == ctx_cell(9 + u));
                    assert(region.constraints@[9 + 8 + (u - 8)] == bound_pair(
                        *cells,
                        b@[8 + (u - 8)],
                        fq_limb_cell(b_g2.y.0, u - 8),
                    ));
                } else if u < 16 {
                    assert(fq_limb_cell(b_g2.y.1, u - 12) == ctx_cell(9 + u));
                    assert(region.constraints@[9 + 12 + (u - 12)] == bound_pair(
                        *cells,
                        b@[12 + (u - 12)],
                        fq_limb_cell(b_g2.y.1, u - 12),
                    ));
                }
                assert(cs[t] == (b@[u].cell, circ(ctx_cell(9 + u))));
            } else {
                let u = t - 9 - g2len;
                let s = u / 4;
                let j = u % 4;
                vstd::arithmetic::div_mod::lemma_fundamental_div_mod(u, 4);
                vstd::arithmetic::div_mod::lemma_mod_bound(u, 4);
                vstd::arithmetic::div_mod::lemma_div_pos_is_pos(u, 4);
                assert(0 <= s < 12 && 0 <= j < 4 && u == 4 * s + j);
                assert(region.constraints@[9 + g2len + 4 * s + j] == bound_pair(
                    *cells,
                    ab@[4 * s + j],
                    fq12_cell(*ab_fq12, s, j),
                ));
                assert(fq12_cell(*ab_fq12, s, j) == ctx_cell(26 + 4 * s + j));
                assert(records@[26 + u].cell == ctx_cell(26 + u));
                assert(lookup_spec(*cells, records@[26 + u].cell) == Some(
                    committed(records@[26 + u]),
                ));
                assert(cs[t] == (ab@[u].cell, circ(ctx_cell(26 + u))));
            }
        }
        assert(region.constraints@ =~= cs);
    }
    Ok(())
}

impl Bls381PairChip {
    /// Packages a configuration into a chip.
    pub fn construct(config: Bls381ChipConfig) -> (r: Self)
        ensures
            r.config == config,
    {
        Bls381PairChip { config }
    }

    /// Builds the gadget configuration from the collaborating chips'
    /// configurations.
    pub fn configure(base_chip_config: BaseChipConfig, range_chip_config: RangeChipConfig) -> (r:
        Bls381ChipConfig)
        ensures
            r.base_chip_config == base_chip_config,
            r.range_chip_config == range_chip_config,
    {
        Bls381ChipConfig { base_chip_config, range_chip_config }
    }

    /// The gadget's configuration.
    pub fn config(&self) -> (r: &Bls381ChipConfig)
        ensures
            r == &self.config,
    {
        &self.config
    }

    /// One whole pairing-check building pass over the external witness
    /// cells: 9 for the base point, 17 for the twist point, 48 for the
    /// claimed pairing result, all already assigned.
    ///
    /// `bind_g2` chooses whether the twist point's cells are also bound to
    /// the operand table. Omitting that binding weakens the proof — the
    /// twist input is then not cross-checked against the table — so the
    /// caller must make the policy explicit.
    ///
    /// On success the layouter gains exactly one region holding the 74
    /// committed cells and the copy constraints of `expected_constraints`;
    /// both depend on the operand cells alone. The pass fails only when
    /// the chips provide too few rows, in which case the layouter is
    /// untouched.
    #[verifier::rlimit(100)]
    #[verifier::spinoff_prover]
    pub fn load_bls381_pair_circuit(
        &self,
        a: &Vec<AssignedCell>,
        b: &Vec<AssignedCell>,
        ab: &Vec<AssignedCell>,
        base_chip: &BaseChip,
        range_chip: &RangeChip,
        layouter: &mut Layouter,
        bind_g2: bool,
    ) -> (r: Result<(), Error>)
        requires
            a@.len() == 9,
            b@.len() == 17,
            ab@.len() == 48,
            cells_assigned(a@, 0, 9),
            cells_assigned(b@, 0, 17),
            cells_assigned(ab@, 0, 48),
        ensures
            r is Ok <==> gadget_fits(base_chip.config.max_rows as nat),
            r is Err ==> r->Err_0 is Capacity && *final(layouter) == *old(layouter),
            r is Ok ==> load_ok_post(*old(layouter), *final(layouter), a@, b@, ab@, bind_g2),
    {
        let mut ctx = EccContext::new();
        let a_g1 = get_g1_from_cells(&mut ctx, a);
        let b_g2 = get_g2_from_cells(&mut ctx, b);
        let ab_fq12 = ctx.pairing(&a_g1, &b_g2);
        let records = ctx.into_records();
        proof {
            lemma_records_shape(records@, base_chip.config.max_rows as nat);
        }
        let mut region = Region::new();
        let cells = match assign_all(&records, &mut region, base_chip, range_chip) {
            Ok(cells) => cells,
            Err(e) => {
                return Err(e);
            },
        };
        match bind_all(
            &mut region,
            &cells,
            &a_g1,
            &b_g2,
            &ab_fq12,
            a,
            b,
            ab,
            bind_g2,
            Ghost(records@),
        ) {
            Ok(()) => (),
            Err(e) => {
                return Err(e);
            },
        }
        proof {
            assert forall|k: int| 0 <= k < PAIR_GADGET_RECORDS implies (
            #[trigger] region.cells@[k]) == committed(records@[k]) by {}
            assert forall|k: int| 0 <= k < PAIR_GADGET_RECORDS implies fr_nat(
                (#[trigger] region.cells@[k]).value->0,
            ) == gadget_cell_nat(a@, b@, ab@, k) by {
                assert(region.cells@[k] == committed(records@[k]));
                if k < 9 {
                    assert(fr_nat(records@[k].value) == g1_record_nat(a@, k));
                } else if k < 26 {
                    let u = k - 9;
                    assert(records@[9 + u] == records@[k]);
                    assert(fr_nat(records@[9 + u].value) == g2_record_nat(b@, u));
                } else {
                    assert(fr_nat(records@[k].value) == 0);
                }
            }
            assert forall|k: int| 0 <= k < PAIR_GADGET_RECORDS implies (
            #[trigger] region.cells@[k]).cell == circ(ctx_cell(k)) && region.cells@[k].value
                is Some by {
                assert(region.cells@[k] == committed(records@[k]));
                assert(records@[k].cell == ctx_cell(k));
            }
        }
        layouter.push_region(region);
        Ok(())
    }

    /// The dispatch-layer entry point: given the shared operand table
    /// columns, the selector and merge columns, and the running row
    /// offset, it must select this gadget's rows, materialize them as the
    /// witness cells of a pairing check, run the building pass, and hand
    /// back the committed result cells with the updated offset. The
    /// selection logic belongs to the dispatch layer and is not integrated
    /// here: invoking the stub is the fatal "not implemented" outcome, a
    /// signal of incomplete integration rather than a runtime bug.
    pub fn assign(
        layouter: &mut Layouter,
        filtered_operands: AdviceColumn,
        filtered_opcodes: AdviceColumn,
        filtered_index: AdviceColumn,
        merged_operands: AdviceColumn,
        indicator: FixedColumn,
        offset: &mut usize,
        args: [Fr; 3],
    ) -> (r: Result<Vec<AssignedCell>, Error>)
        ensures
            r is Err && r->Err_0 is Unimplemented,
            *final(layouter) == *old(layouter),
            *final(offset) == *old(offset),
    {
        Err(Error::Unimplemented)
    }
}

} // verus!
