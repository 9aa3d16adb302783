use verkle_commit::curve::Point;
use verkle_commit::encoding::{be_bytes, bytes_equal, join_bytes, copy_range, range_is_zero};
use verkle_commit::error::CommitError;
use verkle_commit::field::Scalar;

const MODULUS_LE: [u8; 32] = [
    0xe1, 0xe7, 0x76, 0x28, 0xb5, 0x06, 0xfd, 0x74, 0x71, 0x04, 0x19, 0x74, 0x00, 0x87, 0x8f, 0xff,
    0x00, 0x76, 0x68, 0x02, 0x02, 0x76, 0xce, 0x0c, 0x52, 0x5f, 0x67, 0xca, 0xd4, 0x69, 0xfb, 0x1c,
];

fn scalar(n: u8) -> Scalar {
    let mut bytes = vec![0u8; 32];
    bytes[0] = n;
    Scalar::decode(&bytes).unwrap()
}

fn identity_bytes() -> Vec<u8> {
    let mut bytes = vec![0u8; 128];
    bytes[32] = 1;
    bytes[96] = 1;
    bytes
}

#[test]
fn counter_is_written_most_significant_byte_first() {
    assert_eq!(be_bytes(0x0102, 8), vec![0, 0, 0, 0, 0, 0, 1, 2]);
    assert_eq!(be_bytes(0, 8), vec![0u8; 8]);
    assert_eq!(be_bytes(u64::MAX, 8), vec![0xffu8; 8]);
    assert_eq!(be_bytes(0x0123_4567_89ab_cdef, 8), vec![0x01, 0x23, 0x45, 0x67, 0x89, 0xab, 0xcd, 0xef]);
    assert_eq!(be_bytes(0x0102, 1), vec![2]);
    assert_eq!(be_bytes(7, 0), Vec::<u8>::new());
}

#[test]
fn byte_helpers_copy_join_and_compare() {
    let a = vec![1u8, 2, 3, 4];
    assert_eq!(copy_range(&a, 1, 3), vec![2, 3]);
    assert_eq!(copy_range(&a, 2, 2), Vec::<u8>::new());
    assert_eq!(join_bytes(&a, &vec![9u8]), vec![1, 2, 3, 4, 9]);
    assert!(bytes_equal(&a, &vec![1u8, 2, 3, 4]));
    assert!(!bytes_equal(&a, &vec![1u8, 2, 3]));
    assert!(!bytes_equal(&a, &vec![1u8, 2, 3, 5]));
    assert!(range_is_zero(&vec![1u8, 0, 0, 1], 1, 3));
    assert!(!range_is_zero(&vec![1u8, 0, 0, 1], 1, 4));
    assert!(range_is_zero(&a, 2, 2));
}

#[test]
fn scalar_decoding_accepts_exactly_the_numbers_below_the_modulus() {
    assert!(matches!(Scalar::decode(&MODULUS_LE.to_vec()), Err(CommitError::DecodingError)));
    let mut below = MODULUS_LE.to_vec();
    below[0] = 0xe0;
    assert!(Scalar::decode(&below).is_ok());
    let mut above = MODULUS_LE.to_vec();
    above[0] = 0xe2;
    assert!(matches!(Scalar::decode(&above), Err(CommitError::DecodingError)));
    assert!(matches!(Scalar::decode(&vec![0xffu8; 32]), Err(CommitError::DecodingError)));
    assert!(Scalar::decode(&vec![0u8; 32]).is_ok());
}

#[test]
fn scalar_of_the_wrong_width_is_a_decoding_error() {
    assert!(matches!(Scalar::decode(&vec![0u8; 31]), Err(CommitError::DecodingError)));
    assert!(matches!(Scalar::decode(&vec![0u8; 33]), Err(CommitError::DecodingError)));
    assert!(matches!(Scalar::decode(&vec![0u8; 128]), Err(CommitError::DecodingError)));
    assert!(matches!(Scalar::decode(&Vec::new()), Err(CommitError::DecodingError)));
}

#[test]
fn scalar_round_trip_keeps_the_bytes() {
    let mut bytes = vec![0u8; 32];
    for (i, b) in bytes.iter_mut().enumerate() {
        *b = i as u8;
    }
    bytes[31] = 0x1c;
    let s = Scalar::decode(&bytes).unwrap();
    assert_eq!(s.encode(), bytes);
    let again = Scalar::decode(&s.encode()).unwrap();
    assert_eq!(again.encode(), bytes);
}

#[test]
fn scalar_subtraction_is_modular() {
    let two = scalar(5).sub(&scalar(3));
    assert_eq!(two.encode(), scalar(2).encode());
    let zero = scalar(7).sub(&scalar(7));
    assert_eq!(zero.encode(), vec![0u8; 32]);
    let minus_one = scalar(0).sub(&scalar(1));
    let mut expected = MODULUS_LE.to_vec();
    expected[0] = 0xe0;
    assert_eq!(minus_one.encode(), expected);
    let minus_two = scalar(3).sub(&scalar(5));
    expected[0] = 0xdf;
    assert_eq!(minus_two.encode(), expected);
}

#[test]
fn identity_has_the_coordinates_zero_one_zero_one() {
    let id = Point::identity();
    assert_eq!(id.encode(), identity_bytes());
    assert!(id.is_identity());
    let decoded = Point::decode(&identity_bytes()).unwrap();
    assert!(decoded.is_identity());
    assert_eq!(decoded.duplicate().encode(), identity_bytes());
}

#[test]
fn point_decoding_rejects_what_is_not_on_the_curve() {
    let mut off = vec![0u8; 128];
    off[0] = 1;
    off[32] = 1;
    off[64] = 1;
    off[96] = 1;
    assert!(matches!(Point::decode(&off), Err(CommitError::DecodingError)));
}

#[test]
fn point_decoding_rejects_a_zero_z() {
    let mut bytes = identity_bytes();
    bytes[96] = 0;
    assert!(matches!(Point::decode(&bytes), Err(CommitError::DecodingError)));
    assert!(matches!(Point::decode(&vec![0u8; 128]), Err(CommitError::DecodingError)));
}

#[test]
fn point_decoding_rejects_wrong_widths_and_large_coordinates() {
    assert!(matches!(Point::decode(&vec![0u8; 127]), Err(CommitError::DecodingError)));
    assert!(matches!(Point::decode(&vec![0u8; 129]), Err(CommitError::DecodingError)));
    assert!(matches!(Point::decode(&vec![0u8; 32]), Err(CommitError::DecodingError)));
    assert!(matches!(Point::decode(&vec![0xffu8; 128]), Err(CommitError::DecodingError)));
    let mut bytes = identity_bytes();
    for b in bytes[64..96].iter_mut() {
        *b = 0xff;
    }
    assert!(matches!(Point::decode(&bytes), Err(CommitError::DecodingError)));
}

#[test]
fn point_decoding_accepts_other_forms_of_the_same_point() {
    // (0, 2, 0, 2) is the neutral element with z = 2.
    let mut bytes = vec![0u8; 128];
    bytes[32] = 2;
    bytes[96] = 2;
    let p = Point::decode(&bytes).unwrap();
    assert_eq!(p.encode(), bytes);
    assert!(!p.is_identity());
    assert_eq!(p.normalize().encode(), identity_bytes());
}

#[test]
fn adding_the_identity_and_multiplying_by_zero() {
    let id = Point::identity();
    assert_eq!(id.add(&id).encode(), identity_bytes());
    assert_eq!(id.mul(&scalar(0)).encode(), identity_bytes());
    assert_eq!(id.mul(&scalar(9)).normalize().encode(), identity_bytes());
}
