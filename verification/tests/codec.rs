use miden_account_core::codec::{
    read_felt, read_u64, read_u8, read_usize, read_word, usize_encoded_len, write_felt, write_u64,
    write_u8, write_usize, write_word, DeserializationError,
};
use miden_account_core::felt::{empty_word, Felt, MODULUS};
use miden_core::utils::{ByteReader, ByteWriter, Serializable, SliceReader};

fn core_usize_bytes(value: usize) -> Vec<u8> {
    let mut bytes: Vec<u8> = Vec::new();
    bytes.write_usize(value);
    bytes
}

const LENGTHS: [usize; 20] = [
    0,
    1,
    2,
    127,
    128,
    255,
    256,
    16383,
    16384,
    2097151,
    2097152,
    268435455,
    268435456,
    34359738367,
    34359738368,
    4398046511103,
    4398046511104,
    72057594037927935,
    72057594037927936,
    usize::MAX,
];

#[test]
fn felt_new_reduces_modulo_the_field_modulus() {
    assert_eq!(Felt::new(0).as_int(), 0);
    assert_eq!(Felt::new(MODULUS - 1).as_int(), MODULUS - 1);
    assert_eq!(Felt::new(MODULUS).as_int(), 0);
    assert_eq!(Felt::new(u64::MAX).as_int(), u64::MAX - MODULUS);
    assert_eq!(Felt::new(u64::MAX).as_int(), miden_core::Felt::new(u64::MAX).as_int());
    assert_eq!(Felt::zero().as_int(), 0);
    assert_eq!(Felt::one().as_int(), 1);
    assert_eq!(empty_word(), [Felt::new(0); 4]);
}

#[test]
fn u64_is_written_least_significant_byte_first() {
    let mut bytes: Vec<u8> = vec![0xff];
    write_u64(&mut bytes, 0x0102030405060708);
    assert_eq!(bytes, vec![0xff, 8, 7, 6, 5, 4, 3, 2, 1]);
    assert_eq!(read_u64(&bytes, 1), Ok((0x0102030405060708, 9)));
}

#[test]
fn u8_round_trip_and_end_of_input() {
    let mut bytes: Vec<u8> = Vec::new();
    write_u8(&mut bytes, 7);
    assert_eq!(bytes, vec![7]);
    assert_eq!(read_u8(&bytes, 0), Ok((7, 1)));
    assert_eq!(read_u8(&bytes, 1), Err(DeserializationError::UnexpectedEOF));
    assert_eq!(read_u8(&bytes, usize::MAX), Err(DeserializationError::UnexpectedEOF));
}

#[test]
fn u64_needs_eight_bytes() {
    let bytes = [1u8, 2, 3, 4, 5, 6, 7];
    assert_eq!(read_u64(&bytes, 0), Err(DeserializationError::UnexpectedEOF));
    assert_eq!(read_u64(&bytes, 9), Err(DeserializationError::UnexpectedEOF));
    assert_eq!(read_u64(&bytes, usize::MAX), Err(DeserializationError::UnexpectedEOF));
}

#[test]
fn lengths_are_written_as_miden_core_writes_them() {
    for value in LENGTHS {
        let mut bytes: Vec<u8> = Vec::new();
        write_usize(&mut bytes, value);
        assert_eq!(bytes, core_usize_bytes(value), "value {value}");
        assert_eq!(bytes.len(), usize_encoded_len(value), "value {value}");
    }
}

#[test]
fn lengths_have_exact_bytes() {
    let mut bytes: Vec<u8> = Vec::new();
    write_usize(&mut bytes, 0);
    assert_eq!(bytes, vec![1]);
    let mut bytes: Vec<u8> = Vec::new();
    write_usize(&mut bytes, 2);
    assert_eq!(bytes, vec![5]);
    let mut bytes: Vec<u8> = Vec::new();
    write_usize(&mut bytes, 128);
    assert_eq!(bytes, vec![2, 2]);
    let mut bytes: Vec<u8> = Vec::new();
    write_usize(&mut bytes, usize::MAX);
    assert_eq!(bytes, vec![0, 255, 255, 255, 255, 255, 255, 255, 255]);
}

#[test]
fn lengths_round_trip() {
    for value in LENGTHS {
        let mut bytes: Vec<u8> = vec![9, 9];
        write_usize(&mut bytes, value);
        let end = bytes.len();
        bytes.push(42);
        assert_eq!(read_usize(&bytes, 2), Ok((value, end)), "value {value}");
    }
}

#[test]
fn lengths_are_read_as_miden_core_reads_them() {
    // every first byte, followed by a fixed tail: a length in more bytes than it needs is
    // read all the same
    for first in 0..=255u8 {
        let bytes = [first, 0x11, 0x22, 0x33, 0x44, 0x55, 0x66, 0x77, 0x88, 0x99];
        let expected = SliceReader::new(&bytes).read_usize().unwrap();
        let (value, end) = read_usize(&bytes, 0).unwrap();
        assert_eq!(value, expected, "first byte {first}");
        assert_eq!(end, first.trailing_zeros() as usize + 1, "first byte {first}");
    }
}

#[test]
fn length_cut_short_is_end_of_input() {
    assert_eq!(read_usize(&[], 0), Err(DeserializationError::UnexpectedEOF));
    assert_eq!(read_usize(&[2], 0), Err(DeserializationError::UnexpectedEOF));
    assert_eq!(read_usize(&[0, 1, 2, 3], 0), Err(DeserializationError::UnexpectedEOF));
    assert_eq!(read_usize(&[1], 5), Err(DeserializationError::UnexpectedEOF));
}

#[test]
fn felt_bytes_are_those_of_miden_core() {
    for value in [0u64, 1, 255, 256, 0xdead_beef, MODULUS - 1] {
        let mut bytes: Vec<u8> = Vec::new();
        write_felt(&mut bytes, Felt::new(value));
        assert_eq!(bytes, miden_core::Felt::new(value).to_bytes());
        let (felt, end) = read_felt(&bytes, 0).unwrap();
        assert_eq!(felt, Felt::new(value));
        assert_eq!(end, 8);
    }
}

#[test]
fn felt_at_or_above_the_modulus_is_rejected() {
    let bytes = MODULUS.to_le_bytes();
    assert_eq!(
        read_felt(&bytes, 0),
        Err(DeserializationError::InvalidValue(
            "invalid field element: value 18446744069414584321 is greater than or equal to the field modulus"
                .to_string()
        ))
    );
    let bytes = u64::MAX.to_le_bytes();
    assert!(matches!(read_felt(&bytes, 0), Err(DeserializationError::InvalidValue(_))));
    let bytes = (MODULUS - 1).to_le_bytes();
    assert_eq!(read_felt(&bytes, 0), Ok((Felt::new(MODULUS - 1), 8)));
}

#[test]
fn word_round_trip() {
    let word = [Felt::new(1), Felt::new(2), Felt::new(MODULUS - 1), Felt::new(4)];
    let mut bytes: Vec<u8> = vec![0];
    write_word(&mut bytes, &word);
    assert_eq!(bytes.len(), 33);
    assert_eq!(read_word(&bytes, 1), Ok((word, 33)));
    assert_eq!(read_word(&bytes, 2), Err(DeserializationError::UnexpectedEOF));
    let theirs: [miden_core::Felt; 4] = [
        miden_core::Felt::new(1),
        miden_core::Felt::new(2),
        miden_core::Felt::new(MODULUS - 1),
        miden_core::Felt::new(4),
    ];
    assert_eq!(bytes[1..].to_vec(), theirs.to_bytes());
}

#[test]
fn word_with_a_bad_element_reports_the_first_one() {
    let mut bytes: Vec<u8> = Vec::new();
    write_u64(&mut bytes, 1);
    write_u64(&mut bytes, MODULUS + 1);
    write_u64(&mut bytes, u64::MAX);
    write_u64(&mut bytes, 4);
    assert_eq!(
        read_word(&bytes, 0),
        Err(DeserializationError::InvalidValue(
            "invalid field element: value 18446744069414584322 is greater than or equal to the field modulus"
                .to_string()
        ))
    );
}

#[test]
fn deserialization_error_text() {
    assert_eq!(DeserializationError::UnexpectedEOF.to_string(), "unexpected EOF");
    assert_eq!(
        DeserializationError::UnconsumedBytes.to_string(),
        "not all bytes were consumed"
    );
    assert_eq!(DeserializationError::InvalidValue("bad".to_string()).to_string(), "bad");
    assert_eq!(
        DeserializationError::UnknownError("why".to_string()).to_string(),
        "unknown error: why"
    );
    assert_eq!(
        DeserializationError::UnexpectedEOF.to_string(),
        format!("{}", miden_core::utils::DeserializationError::UnexpectedEOF)
    );
    assert_eq!(
        DeserializationError::UnknownError("why".to_string()).to_string(),
        format!("{}", miden_core::utils::DeserializationError::UnknownError("why".to_string()))
    );
}
