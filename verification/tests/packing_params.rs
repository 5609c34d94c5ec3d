use poseidon_bn254::field::Fr;
use poseidon_bn254::packing::{bytes_to_fr, fr_to_bytes, CHUNK};
use poseidon_bn254::params::{ParamsError, PoseidonParams};

const MODULUS: [u64; 4] = [
    0x43e1f593f0000001,
    0x2833e84879b97091,
    0xb85045b68181585d,
    0x30644e72e131a029,
];

fn rows(n: usize) -> Vec<[Fr; 3]> {
    (0..n).map(|r| [Fr::from(r as u64); 3]).collect()
}

fn matrix() -> [[Fr; 3]; 3] {
    [[Fr::one(); 3]; 3]
}

fn round_trip(bytes: &[u8]) {
    let packed = bytes_to_fr(bytes);
    assert_eq!(packed.len(), (bytes.len() + 7) / 8);
    let back = fr_to_bytes(&packed).unwrap();
    assert_eq!(back.len(), 8 * packed.len());
    assert_eq!(&back[..bytes.len()], bytes);
    assert!(back[bytes.len()..].iter().all(|b| *b == 0));
}

#[test]
fn test_bytes_to_fr() {
    let bytes = vec![1u8, 2u8, 3u8, 4u8, 5u8, 6u8, 7u8, 8u8];
    let fr_elements = bytes_to_fr(&bytes);
    assert_eq!(fr_elements.len(), 1);
}

#[test]
fn test_partial_bytes() {
    let bytes = vec![1u8, 2u8, 3u8];
    let fr_elements = bytes_to_fr(&bytes);
    assert_eq!(fr_elements.len(), 1);
}

#[test]
fn bytes_to_fr_is_little_endian() {
    let bytes = vec![1u8, 2u8, 3u8, 4u8, 5u8, 6u8, 7u8, 8u8];
    assert_eq!(bytes_to_fr(&bytes), vec![Fr::from(0x0807060504030201u64)]);
    assert_eq!(bytes_to_fr(&[1u8, 2u8, 3u8]), vec![Fr::from(0x030201u64)]);
    assert_eq!(bytes_to_fr(&[0xffu8; 8]), vec![Fr::from(u64::MAX)]);
    assert_eq!(CHUNK, 8);
}

#[test]
fn bytes_to_fr_of_nothing_is_empty() {
    assert_eq!(bytes_to_fr(&[]), Vec::<Fr>::new());
}

#[test]
fn bytes_to_fr_pads_the_last_chunk() {
    let bytes: Vec<u8> = (0u8..9).collect();
    assert_eq!(
        bytes_to_fr(&bytes),
        vec![Fr::from(0x0706050403020100u64), Fr::from(8u64)]
    );
    let longer: Vec<u8> = (1u8..=17).collect();
    assert_eq!(
        bytes_to_fr(&longer),
        vec![
            Fr::from(0x0807060504030201u64),
            Fr::from(0x100f0e0d0c0b0a09u64),
            Fr::from(0x11u64)
        ]
    );
}

#[test]
fn packing_round_trip_length_0() {
    round_trip(&[]);
    assert_eq!(fr_to_bytes(&[]), Some(Vec::new()));
}

#[test]
fn packing_round_trip_length_1() {
    round_trip(&[0xabu8]);
    assert_eq!(
        fr_to_bytes(&bytes_to_fr(&[0xabu8])),
        Some(vec![0xabu8, 0, 0, 0, 0, 0, 0, 0])
    );
}

#[test]
fn packing_round_trip_length_7() {
    round_trip(&[1u8, 2, 3, 4, 5, 6, 7]);
}

#[test]
fn packing_round_trip_length_8() {
    round_trip(&[0xffu8, 0, 0x80, 1, 2, 3, 4, 0xfe]);
    let bytes = vec![0xffu8, 0, 0x80, 1, 2, 3, 4, 0xfe];
    assert_eq!(fr_to_bytes(&bytes_to_fr(&bytes)), Some(bytes));
}

#[test]
fn packing_round_trip_length_9() {
    round_trip(&[9u8, 8, 7, 6, 5, 4, 3, 2, 1]);
}

#[test]
fn packing_round_trip_long_input() {
    let bytes: Vec<u8> = (0u32..1000).map(|i| (i * 7 % 251) as u8).collect();
    round_trip(&bytes);
}

#[test]
fn fr_to_bytes_writes_eight_bytes_per_element() {
    let elements = [Fr::from(0x0807060504030201u64), Fr::zero(), Fr::from(0x1234u64)];
    assert_eq!(
        fr_to_bytes(&elements),
        Some(vec![
            1u8, 2, 3, 4, 5, 6, 7, 8, 0, 0, 0, 0, 0, 0, 0, 0, 0x34, 0x12, 0, 0, 0, 0, 0, 0
        ])
    );
}

#[test]
fn fr_to_bytes_refuses_elements_above_64_bits() {
    let wide = Fr::from_u128(1u128 << 64);
    assert_eq!(fr_to_bytes(&[Fr::one(), wide]), None);
    assert_eq!(fr_to_bytes(&[Fr::from_limbs([0, 0, 0, 1]).unwrap()]), None);
    assert_eq!(fr_to_bytes(&[Fr::from(u64::MAX)]), Some(vec![0xffu8; 8]));
}

#[test]
fn from_limbs_accepts_only_reduced_values() {
    assert_eq!(Fr::from_limbs(MODULUS), None);
    let mut below = MODULUS;
    below[0] -= 1;
    assert_eq!(Fr::from_limbs(below).unwrap().to_limbs(), below);
    let mut above = MODULUS;
    above[0] += 1;
    assert_eq!(Fr::from_limbs(above), None);
    assert_eq!(Fr::from_limbs([u64::MAX; 4]), None);
    assert_eq!(Fr::from_limbs([u64::MAX, u64::MAX, u64::MAX, 0]).unwrap().to_limbs()[3], 0);
    let mut high = MODULUS;
    high[3] += 1;
    high[0] = 0;
    assert_eq!(Fr::from_limbs(high), None);
    let mut low_top = [u64::MAX; 4];
    low_top[3] = MODULUS[3] - 1;
    assert!(Fr::from_limbs(low_top).is_some());
    let mut mid = MODULUS;
    mid[2] += 1;
    mid[1] = 0;
    mid[0] = 0;
    assert_eq!(Fr::from_limbs(mid), None);
    let mut mid_below = MODULUS;
    mid_below[1] -= 1;
    mid_below[0] = u64::MAX;
    assert!(Fr::from_limbs(mid_below).is_some());
}

#[test]
fn small_constructors_agree() {
    assert_eq!(Fr::zero(), Fr::from(0u64));
    assert_eq!(Fr::one(), Fr::from(1u64));
    assert_eq!(Fr::from(77u64), Fr::from_u128(77));
    assert_eq!(Fr::from(77u64).to_limbs(), [77, 0, 0, 0]);
    assert_eq!(Fr::from_u128(u128::MAX).to_limbs(), [u64::MAX, u64::MAX, 0, 0]);
    assert_eq!(Fr::from_limbs([5, 0, 0, 0]), Some(Fr::from(5u64)));
    assert_ne!(Fr::zero(), Fr::one());
}

#[test]
fn params_accepts_a_consistent_table() {
    let table = PoseidonParams::new(8, 57, rows(65), matrix()).unwrap();
    assert_eq!(table.full_rounds(), 8);
    assert_eq!(table.partial_rounds(), 57);
    assert_eq!(table.rounds(), 65);
    assert_eq!(table.round_constant(64, 2), Fr::from(64u64));
    assert_eq!(table.round_constant(0, 0), Fr::zero());
    assert_eq!(table.mds_entry(2, 1), Fr::one());
}

#[test]
fn params_refuses_odd_full_rounds() {
    assert_eq!(
        PoseidonParams::new(7, 57, rows(64), matrix()).err(),
        Some(ParamsError::OddFullRounds)
    );
    assert_eq!(
        PoseidonParams::new(1, 0, rows(3), matrix()).err(),
        Some(ParamsError::OddFullRounds)
    );
}

#[test]
fn params_refuses_a_wrong_number_of_constant_vectors() {
    assert_eq!(
        PoseidonParams::new(8, 57, rows(64), matrix()).err(),
        Some(ParamsError::RoundCountMismatch)
    );
    assert_eq!(
        PoseidonParams::new(8, 57, rows(66), matrix()).err(),
        Some(ParamsError::RoundCountMismatch)
    );
    assert_eq!(
        PoseidonParams::new(8, 0, rows(3), matrix()).err(),
        Some(ParamsError::RoundCountMismatch)
    );
    assert_eq!(
        PoseidonParams::new(usize::MAX - 1, 4, rows(2), matrix()).err(),
        Some(ParamsError::RoundCountMismatch)
    );
    assert!(PoseidonParams::new(0, 3, rows(3), matrix()).is_ok());
}

#[test]
fn unpacking_round_trip() {
    let elements = vec![
        Fr::zero(),
        Fr::from(u64::MAX),
        Fr::from(0x0102030405060708u64),
        Fr::from(255u64),
    ];
    let bytes = fr_to_bytes(&elements).unwrap();
    assert_eq!(bytes.len(), 32);
    assert_eq!(bytes_to_fr(&bytes), elements);
}
