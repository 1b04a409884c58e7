use bls381_pair::Error;
use bls381_pair::binder::get_cell_of_ctx;
use bls381_pair::cell::{AssignedCell, CircuitCell, ContextCell};
use bls381_pair::chip::{AdviceColumn, Bls381PairChip, FixedColumn};
use bls381_pair::codec::bn_to_limbs;
use bls381_pair::context::EccContext;
use bls381_pair::layouter::{Layouter, Region};
use bls381_pair::replay::{BaseChip, BaseChipConfig, RangeChip, RangeChipConfig, assign_all};
use bls381_pair::value::Fr;
use num_bigint::BigUint;

// The BLS12-381 generator points, affine coordinates in hex.
const G1_X: &[u8] = b"17f1d3a73197d7942695638c4fa9ac0fc3688c4f9774b905a14e3a3f171bac586c55e83ff97a1aeffb3af00adb22c6bb";
const G1_Y: &[u8] = b"08b3f481e3aaa0f1a09e30ed741d8ae4fcf5e095d5d00af600db18cb2c04b3edd03cc744a2888ae40caa232946c5e7e1";
const G2_X0: &[u8] = b"024aa2b2f08f0a91260805272dc51051c6e47ad4fa403b02b4510b647ae3d1770bac0326a805bbefd48056c8c121bdb8";
const G2_X1: &[u8] = b"13e02b6052719f607dacd3a088274f65596bd0d09920b61ab5da61bbdc7f5049334cf11213945d57e5ac7d055d042b7e";
const G2_Y0: &[u8] = b"0ce5d527727d6e118cc9cdc6da2e351aadfd9baa8cbdd3a76d429a695160d12c923ac9cc3baca289e193548608b82801";
const G2_Y1: &[u8] = b"0606c4a02ea734cc32acd2b02bc28b99cb3e287e85a763af267492ab572e99ab3f370d275cec1da1aaa9075ff05f79be";

fn table_cell(region: usize, row: usize, v: Fr) -> AssignedCell {
    AssignedCell { value: Some(v), cell: CircuitCell { region, col: 0, row } }
}

fn push_coordinate(cells: &mut Vec<AssignedCell>, region: usize, hex: &[u8]) {
    let v = BigUint::parse_bytes(hex, 16).unwrap();
    let limbs = bn_to_limbs(&v);
    let base = cells.len();
    cells.push(table_cell(region, base, limbs.0));
    cells.push(table_cell(region, base + 1, limbs.1));
    cells.push(table_cell(region, base + 2, limbs.2));
    cells.push(table_cell(region, base + 3, limbs.3));
}

fn generator_g1_cells() -> Vec<AssignedCell> {
    let mut cells = Vec::new();
    push_coordinate(&mut cells, 10, G1_X);
    push_coordinate(&mut cells, 10, G1_Y);
    cells.push(table_cell(10, 8, Fr::zero()));
    cells
}

fn generator_g2_cells() -> Vec<AssignedCell> {
    let mut cells = Vec::new();
    push_coordinate(&mut cells, 11, G2_X0);
    push_coordinate(&mut cells, 11, G2_X1);
    push_coordinate(&mut cells, 11, G2_Y0);
    push_coordinate(&mut cells, 11, G2_Y1);
    cells.push(table_cell(11, 16, Fr::zero()));
    cells
}

fn result_cells() -> Vec<AssignedCell> {
    // The claimed pairing value: 48 limb cells. The building pass records
    // the binding whatever values they hold; whether they really equal the
    // pairing is checked by the external proof verifier.
    (0..48).map(|i| table_cell(12, i, Fr::from_limbs(i as u64, 0, 0, 0))).collect()
}

fn chips(max_rows: usize) -> (BaseChip, RangeChip) {
    (
        BaseChip::new(BaseChipConfig { max_rows }),
        RangeChip::new(RangeChipConfig { max_rows }),
    )
}

fn run_load(max_rows: usize, bind_g2: bool, layouter: &mut Layouter) -> Result<(), Error> {
    let (base_chip, range_chip) = chips(max_rows);
    let config = Bls381PairChip::configure(base_chip.config, range_chip.config);
    let chip = Bls381PairChip::construct(config);
    chip.load_bls381_pair_circuit(
        &generator_g1_cells(),
        &generator_g2_cells(),
        &result_cells(),
        &base_chip,
        &range_chip,
        layouter,
        bind_g2,
    )
}

#[test]
fn generator_pairing_binding_succeeds() {
    let mut layouter = Layouter::new();
    assert_eq!(run_load(32, true, &mut layouter), Ok(()));
    assert_eq!(layouter.regions.len(), 1);
    let region = &layouter.regions[0];
    assert_eq!(region.cells.len(), 74);
    assert_eq!(region.constraints.len(), 74);
    // The base point's first limb binds to the first committed cell.
    let a = generator_g1_cells();
    assert_eq!(
        region.constraints[0],
        (a[0].cell, CircuitCell { region: 0, col: 0, row: 0 }),
    );
    // The result's first limb binds to committed cell 26.
    let ab = result_cells();
    assert_eq!(
        region.constraints[26],
        (ab[0].cell, CircuitCell { region: 0, col: 1, row: 5 }),
    );
}

#[test]
fn binding_complete_without_g2() {
    let mut layouter = Layouter::new();
    assert_eq!(run_load(32, false, &mut layouter), Ok(()));
    let region = &layouter.regions[0];
    assert_eq!(region.constraints.len(), 57);
    let a = generator_g1_cells();
    let ab = result_cells();
    for t in 0..9 {
        assert_eq!(region.constraints[t].0, a[t].cell);
    }
    for u in 0..48 {
        assert_eq!(region.constraints[9 + u].0, ab[u].cell);
    }
    // Every external cell is bound exactly once, to its own internal cell.
    for t1 in 0..57 {
        for t2 in (t1 + 1)..57 {
            assert_ne!(region.constraints[t1].0, region.constraints[t2].0);
            assert_ne!(region.constraints[t1].1, region.constraints[t2].1);
        }
    }
}

#[test]
fn building_is_deterministic() {
    let mut l1 = Layouter::new();
    let mut l2 = Layouter::new();
    assert_eq!(run_load(32, true, &mut l1), Ok(()));
    assert_eq!(run_load(32, true, &mut l2), Ok(()));
    assert_eq!(l1.regions[0].constraints, l2.regions[0].constraints);
    assert_eq!(l1.regions[0].cells, l2.regions[0].cells);
}

#[test]
fn capacity_failure_is_fatal_and_clean() {
    // 74 records over 5 columns need 15 rows; 10 are not enough.
    let mut layouter = Layouter::new();
    assert_eq!(run_load(10, true, &mut layouter), Err(Error::Capacity));
    assert_eq!(layouter.regions.len(), 0);
}

#[test]
fn exactly_enough_rows_suffice() {
    let mut layouter = Layouter::new();
    assert_eq!(run_load(15, true, &mut layouter), Ok(()));
    assert_eq!(run_load(14, true, &mut Layouter::new()), Err(Error::Capacity));
}

#[test]
fn off_curve_witness_still_builds() {
    // A point that is not on the curve builds fine: the unsoundness is
    // caught only when the external constraint system checks the circuit.
    let garbage_a: Vec<AssignedCell> =
        (0..9).map(|i| table_cell(10, i, Fr::from_limbs(i as u64 + 99, 0, 0, 0))).collect();
    let (base_chip, range_chip) = chips(32);
    let chip = Bls381PairChip::construct(Bls381PairChip::configure(
        base_chip.config,
        range_chip.config,
    ));
    let mut layouter = Layouter::new();
    let r = chip.load_bls381_pair_circuit(
        &garbage_a,
        &generator_g2_cells(),
        &result_cells(),
        &base_chip,
        &range_chip,
        &mut layouter,
        true,
    );
    assert_eq!(r, Ok(()));
    assert_eq!(layouter.regions[0].constraints.len(), 74);
}

#[test]
fn missing_deferred_cell_is_consistency_error() {
    let empty: Vec<Vec<Vec<Option<AssignedCell>>>> = Vec::new();
    let r = get_cell_of_ctx(&empty, &ContextCell { region: 0, col: 0, row: 0 });
    assert_eq!(r, Err(Error::Consistency));
}

#[test]
fn replay_lookup_returns_committed_cells() {
    let mut ctx = EccContext::new();
    ctx.assign(Fr::from_limbs(41, 0, 0, 0));
    ctx.assign(Fr::from_limbs(42, 0, 0, 0));
    let records = ctx.into_records();
    let mut region = Region::new();
    let (base_chip, range_chip) = chips(4);
    let cells = assign_all(&records, &mut region, &base_chip, &range_chip).unwrap();
    let found = get_cell_of_ctx(&cells, &ContextCell { region: 0, col: 1, row: 0 }).unwrap();
    assert_eq!(found.value, Some(Fr::from_limbs(42, 0, 0, 0)));
    assert_eq!(found.cell, CircuitCell { region: 0, col: 1, row: 0 });
    let missing = get_cell_of_ctx(&cells, &ContextCell { region: 0, col: 2, row: 0 });
    assert_eq!(missing, Err(Error::Consistency));
    assert_eq!(region.cells.len(), 2);
}

#[test]
fn replay_rejects_overflowing_records() {
    let mut ctx = EccContext::new();
    for i in 0..12u64 {
        ctx.assign(Fr::from_limbs(i, 0, 0, 0));
    }
    let records = ctx.into_records();
    let mut region = Region::new();
    let (base_chip, range_chip) = chips(2);
    let r = assign_all(&records, &mut region, &base_chip, &range_chip);
    assert_eq!(r, Err(Error::Capacity));
    assert_eq!(region.cells.len(), 0);
}

#[test]
fn constrain_equal_records_the_pair() {
    let mut region = Region::new();
    let left = CircuitCell { region: 5, col: 1, row: 2 };
    let right = CircuitCell { region: 0, col: 3, row: 4 };
    assert_eq!(region.constrain_equal(left, right), Ok(()));
    assert_eq!(region.constraints, vec![(left, right)]);
}

#[test]
fn chip_packages_configuration() {
    let (base_chip, range_chip) = chips(8);
    let config = Bls381PairChip::configure(base_chip.config, range_chip.config);
    let chip = Bls381PairChip::construct(config);
    assert_eq!(chip.config().base_chip_config.max_rows, 8);
    assert_eq!(chip.config().range_chip_config.max_rows, 8);
}

#[test]
fn host_dispatch_entry_is_unimplemented() {
    let mut layouter = Layouter::new();
    let mut offset: usize = 0;
    let r = Bls381PairChip::assign(
        &mut layouter,
        AdviceColumn { index: 0 },
        AdviceColumn { index: 1 },
        AdviceColumn { index: 2 },
        AdviceColumn { index: 3 },
        FixedColumn { index: 0 },
        &mut offset,
        [Fr::zero(), Fr::zero(), Fr::zero()],
    );
    assert_eq!(r, Err(Error::Unimplemented));
    assert_eq!(offset, 0);
}
