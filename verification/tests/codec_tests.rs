use bls381_pair::cell::{AssignedCell, CircuitCell};
use bls381_pair::codec::{assigned_cells_to_bn381, bn_to_fr, bn_to_limbs, fr_to_bn, fr_to_bool};
use bls381_pair::value::Fr;
use num_bigint::BigUint;

fn codec_cell(row: usize, v: Fr) -> AssignedCell {
    AssignedCell { value: Some(v), cell: CircuitCell { region: 3, col: 0, row } }
}

fn pow2_bn(e: u32) -> BigUint {
    BigUint::from(2u32).pow(e)
}

#[test]
fn fr_to_bn_matches_positional_value() {
    let f = Fr::from_limbs(1, 2, 3, 4);
    let expected = BigUint::from(1u64)
        + BigUint::from(2u64) * pow2_bn(64)
        + BigUint::from(3u64) * pow2_bn(128)
        + BigUint::from(4u64) * pow2_bn(192);
    assert_eq!(fr_to_bn(&f), expected);
}

#[test]
fn fr_to_bn_zero() {
    assert_eq!(fr_to_bn(&Fr::zero()), BigUint::from(0u64));
    assert_eq!(fr_to_bn(&Fr::one()), BigUint::from(1u64));
}

#[test]
fn fr_to_bool_reads_low_byte() {
    assert!(!fr_to_bool(&Fr::from_limbs(0, 0, 0, 0)));
    assert!(fr_to_bool(&Fr::from_limbs(1, 0, 0, 0)));
    assert!(fr_to_bool(&Fr::from_limbs(2, 0, 0, 0)));
    assert!(fr_to_bool(&Fr::from_limbs(0xff, 0, 0, 0)));
    // Low byte zero: the rest of the value does not make the flag true.
    assert!(!fr_to_bool(&Fr::from_limbs(256, 7, 7, 7)));
}

#[test]
fn bn_to_fr_packs_digits() {
    let v = pow2_bn(64) + BigUint::from(5u64);
    let f = bn_to_fr(&v);
    assert_eq!(f.limbs, (5, 1, 0, 0));
    assert_eq!(fr_to_bn(&f), v);
}

#[test]
fn bn_to_limbs_chunks() {
    let v = BigUint::from(3u64)
        + BigUint::from(7u64) * pow2_bn(108)
        + BigUint::from(11u64) * pow2_bn(216)
        + BigUint::from(13u64) * pow2_bn(324);
    let limbs = bn_to_limbs(&v);
    assert_eq!(limbs.0, Fr::from_limbs(3, 0, 0, 0));
    assert_eq!(limbs.1, Fr::from_limbs(7, 0, 0, 0));
    assert_eq!(limbs.2, Fr::from_limbs(11, 0, 0, 0));
    assert_eq!(limbs.3, Fr::from_limbs(13, 0, 0, 0));
}

#[test]
fn bn_to_limbs_cuts_high_bits() {
    let v = pow2_bn(432) + BigUint::from(7u64);
    let limbs = bn_to_limbs(&v);
    assert_eq!(limbs.0, Fr::from_limbs(7, 0, 0, 0));
    assert_eq!(limbs.1, Fr::zero());
    assert_eq!(limbs.2, Fr::zero());
    assert_eq!(limbs.3, Fr::zero());
}

#[test]
fn limb_round_trip() {
    // A full-width 432-bit value: encoding to four 108-bit limb cells and
    // decoding them reproduces it exactly.
    let v = BigUint::parse_bytes(
        b"ab54a98ceb1f0ad2f05397829cbc14e5dcba9876543210fedcba987654321055e83ff97a1aeffb3af00adb22c6bb",
        16,
    )
    .unwrap();
    assert!(v < pow2_bn(432));
    let limbs = bn_to_limbs(&v);
    let cells = vec![
        codec_cell(0, limbs.0),
        codec_cell(1, limbs.1),
        codec_cell(2, limbs.2),
        codec_cell(3, limbs.3),
    ];
    assert_eq!(assigned_cells_to_bn381(&cells, 0), v);
}

#[test]
fn decode_positional_formula() {
    let cells = vec![
        codec_cell(0, Fr::from_limbs(1, 0, 0, 0)),
        codec_cell(1, Fr::from_limbs(2, 0, 0, 0)),
        codec_cell(2, Fr::from_limbs(3, 0, 0, 0)),
        codec_cell(3, Fr::from_limbs(4, 0, 0, 0)),
    ];
    let expected = BigUint::from(1u64)
        + BigUint::from(2u64) * pow2_bn(108)
        + BigUint::from(3u64) * pow2_bn(216)
        + BigUint::from(4u64) * pow2_bn(324);
    assert_eq!(assigned_cells_to_bn381(&cells, 0), expected);
}

#[test]
fn decode_performs_no_range_check() {
    // A limb cell holding a value wider than 108 bits still contributes in
    // full: range enforcement belongs to the consuming chip.
    let wide = Fr::from_limbs(0, 0, 1, 0);  // 2^128
    let cells = vec![
        codec_cell(0, wide),
        codec_cell(1, Fr::zero()),
        codec_cell(2, Fr::zero()),
        codec_cell(3, Fr::zero()),
    ];
    assert_eq!(assigned_cells_to_bn381(&cells, 0), pow2_bn(128));
}

#[test]
fn decode_starts_at_offset() {
    let cells = vec![
        codec_cell(0, Fr::from_limbs(9, 0, 0, 0)),
        codec_cell(1, Fr::from_limbs(1, 0, 0, 0)),
        codec_cell(2, Fr::from_limbs(2, 0, 0, 0)),
        codec_cell(3, Fr::from_limbs(3, 0, 0, 0)),
        codec_cell(4, Fr::from_limbs(4, 0, 0, 0)),
    ];
    let expected = BigUint::from(1u64)
        + BigUint::from(2u64) * pow2_bn(108)
        + BigUint::from(3u64) * pow2_bn(216)
        + BigUint::from(4u64) * pow2_bn(324);
    assert_eq!(assigned_cells_to_bn381(&cells, 1), expected);
}
