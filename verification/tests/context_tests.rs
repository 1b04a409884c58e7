use bls381_pair::cell::{AssignedCell, CircuitCell};
use bls381_pair::codec::bn_to_limbs;
use bls381_pair::context::{EccContext, VAR_COLUMNS};
use bls381_pair::loader::{get_g1_from_cells, get_g2_from_cells};
use bls381_pair::value::Fr;
use num_bigint::BigUint;

fn operand_cell(region: usize, row: usize, v: Fr) -> AssignedCell {
    AssignedCell { value: Some(v), cell: CircuitCell { region, col: 0, row } }
}

fn g1_cells(flag: Fr) -> Vec<AssignedCell> {
    let mut cells = Vec::new();
    for i in 0..8u64 {
        cells.push(operand_cell(7, i as usize, Fr::from_limbs(i + 1, 0, 0, 0)));
    }
    cells.push(operand_cell(7, 8, flag));
    cells
}

fn g2_cells(flag: Fr) -> Vec<AssignedCell> {
    let mut cells = Vec::new();
    for i in 0..16u64 {
        cells.push(operand_cell(8, i as usize, Fr::from_limbs(i + 1, 0, 0, 0)));
    }
    cells.push(operand_cell(8, 16, flag));
    cells
}

#[test]
fn assign_allocates_cells_in_order() {
    let mut ctx = EccContext::new();
    for i in 0..7u64 {
        let av = ctx.assign(Fr::from_limbs(i, 0, 0, 0));
        assert_eq!(av.cell.region, 0);
        assert_eq!(av.cell.col, (i as usize) % VAR_COLUMNS);
        assert_eq!(av.cell.row, (i as usize) / VAR_COLUMNS);
    }
    let records = ctx.into_records();
    assert_eq!(records.len(), 7);
    for (k, rec) in records.iter().enumerate() {
        assert_eq!(rec.cell.col, k % VAR_COLUMNS);
        assert_eq!(rec.cell.row, k / VAR_COLUMNS);
        assert_eq!(rec.value, Fr::from_limbs(k as u64, 0, 0, 0));
    }
}

#[test]
fn assign_w_splits_limbs() {
    let v = BigUint::from(3u64)
        + BigUint::from(7u64) * BigUint::from(2u32).pow(108)
        + BigUint::from(11u64) * BigUint::from(2u32).pow(216)
        + BigUint::from(13u64) * BigUint::from(2u32).pow(324);
    let mut ctx = EccContext::new();
    let fq = ctx.assign_w(&v);
    assert_eq!(fq.limbs_le.0.value, Fr::from_limbs(3, 0, 0, 0));
    assert_eq!(fq.limbs_le.1.value, Fr::from_limbs(7, 0, 0, 0));
    assert_eq!(fq.limbs_le.2.value, Fr::from_limbs(11, 0, 0, 0));
    assert_eq!(fq.limbs_le.3.value, Fr::from_limbs(13, 0, 0, 0));
    assert_eq!(fq.limbs_le.0.cell.row, 0);
    assert_eq!(fq.limbs_le.3.cell.col, 3);
    assert_eq!(ctx.records.len(), 4);
}

#[test]
fn g1_identity_flag_one_yields_identity() {
    // Flag 1 marks the identity point whatever the coordinate limbs hold.
    let mut ctx = EccContext::new();
    let p = get_g1_from_cells(&mut ctx, &g1_cells(Fr::one()));
    assert_eq!(p.z.0.value, Fr::one());
}

#[test]
fn g1_identity_flag_zero_yields_ordinary_point() {
    let mut ctx = EccContext::new();
    let p = get_g1_from_cells(&mut ctx, &g1_cells(Fr::zero()));
    assert_eq!(p.z.0.value, Fr::zero());
}

#[test]
fn g1_identity_flag_reads_low_byte_only() {
    // Nonzero low byte: identity; low byte zero: ordinary, even when the
    // rest of the flag value is nonzero.
    let mut ctx1 = EccContext::new();
    let p1 = get_g1_from_cells(&mut ctx1, &g1_cells(Fr::from_limbs(3, 0, 0, 0)));
    assert_eq!(p1.z.0.value, Fr::one());
    let mut ctx2 = EccContext::new();
    let p2 = get_g1_from_cells(&mut ctx2, &g1_cells(Fr::from_limbs(256, 5, 0, 0)));
    assert_eq!(p2.z.0.value, Fr::zero());
}

#[test]
fn g2_identity_flag_correctness() {
    let mut ctx1 = EccContext::new();
    let p1 = get_g2_from_cells(&mut ctx1, &g2_cells(Fr::one()));
    assert_eq!(p1.z.0.value, Fr::one());
    let mut ctx2 = EccContext::new();
    let p2 = get_g2_from_cells(&mut ctx2, &g2_cells(Fr::zero()));
    assert_eq!(p2.z.0.value, Fr::zero());
}

#[test]
fn g1_loader_reconstructs_coordinates() {
    // The x coordinate's limbs land verbatim in the context records when
    // they are canonical 108-bit values.
    let mut ctx = EccContext::new();
    let cells = g1_cells(Fr::zero());
    let p = get_g1_from_cells(&mut ctx, &cells);
    assert_eq!(p.x.limbs_le.0.value, Fr::from_limbs(1, 0, 0, 0));
    assert_eq!(p.x.limbs_le.3.value, Fr::from_limbs(4, 0, 0, 0));
    assert_eq!(p.y.limbs_le.0.value, Fr::from_limbs(5, 0, 0, 0));
    assert_eq!(p.y.limbs_le.3.value, Fr::from_limbs(8, 0, 0, 0));
    assert_eq!(ctx.records.len(), 9);
}

#[test]
fn pairing_defers_48_result_cells() {
    let mut ctx = EccContext::new();
    let g1 = get_g1_from_cells(&mut ctx, &g1_cells(Fr::zero()));
    let g2 = get_g2_from_cells(&mut ctx, &g2_cells(Fr::zero()));
    let fq12 = ctx.pairing(&g1, &g2);
    assert_eq!(ctx.records.len(), 74);
    // First result sub-element starts right after the two points' cells.
    assert_eq!(fq12.0.0.0.limbs_le.0.cell.col, 26 % VAR_COLUMNS);
    assert_eq!(fq12.0.0.0.limbs_le.0.cell.row, 26 / VAR_COLUMNS);
    assert_eq!(fq12.1.2.1.limbs_le.3.cell.col, 73 % VAR_COLUMNS);
    assert_eq!(fq12.1.2.1.limbs_le.3.cell.row, 73 / VAR_COLUMNS);
}

#[test]
fn limbs_from_split_match_assign_w() {
    let v = BigUint::parse_bytes(b"123456789abcdef0fedcba9876543210", 16).unwrap();
    let split = bn_to_limbs(&v);
    let mut ctx = EccContext::new();
    let fq = ctx.assign_w(&v);
    assert_eq!(fq.limbs_le.0.value, split.0);
    assert_eq!(fq.limbs_le.1.value, split.1);
    assert_eq!(fq.limbs_le.2.value, split.2);
    assert_eq!(fq.limbs_le.3.value, split.3);
}
