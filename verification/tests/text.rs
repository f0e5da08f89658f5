use miden_account_core::digest::Digest;
use miden_account_core::felt::{Felt, MODULUS};
use miden_account_core::text::{
    decimal_string, push_bracketed, push_decimal, push_felt_list, push_hex_byte, push_hex_bytes,
    push_text,
};
use miden_core::crypto::hash::RpoDigest;

#[test]
fn decimal_numerals() {
    assert_eq!(decimal_string(0), "0");
    assert_eq!(decimal_string(7), "7");
    assert_eq!(decimal_string(10), "10");
    assert_eq!(decimal_string(1234567890), "1234567890");
    assert_eq!(decimal_string(u64::MAX), "18446744073709551615");
    for value in [0u64, 9, 10, 99, 100, 101, 4096, MODULUS, u64::MAX - 1] {
        assert_eq!(decimal_string(value), value.to_string());
    }
}

#[test]
fn pieces_are_appended() {
    let mut text = String::from("a");
    push_text(&mut text, "bc");
    push_decimal(&mut text, 120);
    push_hex_byte(&mut text, 0x0f);
    push_hex_byte(&mut text, 0xa0);
    push_hex_bytes(&mut text, &vec![0x00, 0x1b, 0xff]);
    assert_eq!(text, "abc1200fa0001bff");
}

#[test]
fn lists_of_elements() {
    let mut text = String::new();
    push_felt_list(&mut text, &[]);
    assert_eq!(text, "");
    push_felt_list(&mut text, &[Felt::new(5)]);
    assert_eq!(text, "5");
    let mut text = String::new();
    push_felt_list(&mut text, &[Felt::new(1), Felt::new(20), Felt::new(300)]);
    assert_eq!(text, "1, 20, 300");
    let mut text = String::new();
    push_bracketed(&mut text, &[]);
    assert_eq!(text, "[]");
    let mut text = String::new();
    push_bracketed(&mut text, &[Felt::new(1), Felt::new(2)]);
    assert_eq!(text, "[1, 2]");
    let theirs = vec![miden_core::Felt::new(1), miden_core::Felt::new(2)];
    assert_eq!(text, format!("{:?}", theirs));
}

#[test]
fn digest_text_is_that_of_miden_core() {
    let values = [1u64, 0xabcdef, MODULUS - 1, 0x0102030405060708];
    let digest = Digest::new([
        Felt::new(values[0]),
        Felt::new(values[1]),
        Felt::new(values[2]),
        Felt::new(values[3]),
    ]);
    let theirs = RpoDigest::new([
        miden_core::Felt::new(values[0]),
        miden_core::Felt::new(values[1]),
        miden_core::Felt::new(values[2]),
        miden_core::Felt::new(values[3]),
    ]);
    assert_eq!(digest.to_hex(), theirs.to_hex());
    assert_eq!(digest.to_hex(), format!("{}", theirs));
    assert_eq!(digest.to_debug_string(), format!("{:?}", theirs));
    assert_eq!(digest.to_hex().len(), 66);
    assert_eq!(
        Digest::new([Felt::new(1), Felt::new(2), Felt::new(3), Felt::new(4)]).to_hex(),
        "0x0100000000000000020000000000000003000000000000000400000000000000"
    );
}

#[test]
fn digest_equality_and_parts() {
    let word = [Felt::new(1), Felt::new(2), Felt::new(3), Felt::new(4)];
    let other = [Felt::new(1), Felt::new(2), Felt::new(3), Felt::new(5)];
    assert_eq!(Digest::new(word), Digest::new(word));
    assert_ne!(Digest::new(word), Digest::new(other));
    assert_eq!(Digest::new(word).to_word(), word);
    assert_eq!(*Digest::new(word).as_elements(), word);
}
