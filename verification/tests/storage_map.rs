use miden_account_core::accounts::storage::map::StorageMap;
use miden_account_core::codec::{write_u64, write_usize, write_word, DeserializationError};
use miden_account_core::digest::Digest;
use miden_account_core::felt::{empty_word, Felt, Word, MODULUS};
use miden_core::crypto::hash::RpoDigest;
use miden_core::crypto::merkle::{EmptySubtreeRoots, Smt, SMT_DEPTH};
use miden_core::utils::Serializable;

fn word(a: u64, b: u64, c: u64, d: u64) -> Word {
    [Felt::new(a), Felt::new(b), Felt::new(c), Felt::new(d)]
}

fn core_word(a: u64, b: u64, c: u64, d: u64) -> [miden_core::Felt; 4] {
    [
        miden_core::Felt::new(a),
        miden_core::Felt::new(b),
        miden_core::Felt::new(c),
        miden_core::Felt::new(d),
    ]
}

fn ints(word: [miden_core::Felt; 4]) -> [u64; 4] {
    [word[0].as_int(), word[1].as_int(), word[2].as_int(), word[3].as_int()]
}

fn own_ints(word: Word) -> [u64; 4] {
    [word[0].as_int(), word[1].as_int(), word[2].as_int(), word[3].as_int()]
}

fn two_entry_map() -> StorageMap {
    let mut map = StorageMap::new();
    map.insert(Digest::new(word(101, 102, 103, 104)), word(1, 2, 3, 4));
    map.insert(Digest::new(word(105, 106, 107, 108)), word(5, 6, 7, 8));
    map
}

fn two_entry_tree() -> Smt {
    Smt::with_entries([
        (RpoDigest::new(core_word(101, 102, 103, 104)), core_word(1, 2, 3, 4)),
        (RpoDigest::new(core_word(105, 106, 107, 108)), core_word(5, 6, 7, 8)),
    ])
    .unwrap()
}

#[test]
fn empty_map_has_the_root_of_the_empty_tree() {
    let map = StorageMap::new();
    let expected: [miden_core::Felt; 4] = (*EmptySubtreeRoots::entry(SMT_DEPTH, 0)).into();
    assert_eq!(own_ints(map.root().to_word()), ints(expected));
    assert_ne!(map.root().to_word(), empty_word());
    assert!(map.entries().is_empty());
}

#[test]
fn root_is_that_of_miden_core() {
    let map = two_entry_map();
    let expected: [miden_core::Felt; 4] = two_entry_tree().root().into();
    assert_eq!(own_ints(map.root().to_word()), ints(expected));
    assert_eq!(
        own_ints(map.root().to_word()),
        [
            12405212884040084310,
            17614307840949763446,
            6101527485586301500,
            14442045877206841081
        ]
    );
}

#[test]
fn root_does_not_depend_on_the_order_of_insertion() {
    let mut other = StorageMap::new();
    other.insert(Digest::new(word(105, 106, 107, 108)), word(5, 6, 7, 8));
    other.insert(Digest::new(word(101, 102, 103, 104)), word(1, 2, 3, 4));
    assert_eq!(other.root(), two_entry_map().root());
    assert_eq!(other, two_entry_map());
    assert_eq!(other.to_bytes(), two_entry_map().to_bytes());
}

#[test]
fn insert_returns_the_previous_value() {
    let mut map = StorageMap::new();
    let key = Digest::new(word(9, 9, 9, 9));
    assert_eq!(map.insert(key, word(1, 1, 1, 1)), empty_word());
    assert_eq!(map.insert(key, word(2, 2, 2, 2)), word(1, 1, 1, 1));
    assert_eq!(map.entries(), vec![(word(9, 9, 9, 9), word(2, 2, 2, 2))]);
    // storing the empty word removes the key
    assert_eq!(map.insert(key, empty_word()), word(2, 2, 2, 2));
    assert!(map.entries().is_empty());
    assert_eq!(map.root(), StorageMap::new().root());
    assert_eq!(map.insert(key, empty_word()), empty_word());
}

#[test]
fn map_bytes_are_those_of_miden_core() {
    assert_eq!(StorageMap::new().to_bytes(), Smt::new().to_bytes());
    assert_eq!(StorageMap::new().to_bytes(), vec![1]);
    assert_eq!(two_entry_map().to_bytes(), two_entry_tree().to_bytes());
    assert_eq!(two_entry_map().to_bytes().len(), 1 + 2 * 64);
    assert_eq!(two_entry_map().get_size_hint(), 1 + 2 * 64);
    assert_eq!(StorageMap::new().get_size_hint(), 1);
}

#[test]
fn map_with_many_entries_matches_miden_core() {
    let mut map = StorageMap::new();
    let mut theirs = Smt::new();
    for i in 0..200u64 {
        // several keys share a leaf: the last element of the key chooses it
        let key = (i * 7919 % 1000, i, i % 3, i % 5);
        let value = (i + 1, 0, MODULUS - 1 - i, 3);
        map.insert(Digest::new(word(key.0, key.1, key.2, key.3)), word(value.0, value.1, value.2, value.3));
        theirs.insert(
            RpoDigest::new(core_word(key.0, key.1, key.2, key.3)),
            core_word(value.0, value.1, value.2, value.3),
        );
    }
    let expected: [miden_core::Felt; 4] = theirs.root().into();
    assert_eq!(own_ints(map.root().to_word()), ints(expected));
    let bytes = map.to_bytes();
    assert_eq!(bytes, theirs.to_bytes());
    assert_eq!(bytes.len(), map.get_size_hint());
    assert_eq!(map.entries().len(), 200);
    let (read, end) = StorageMap::read_from(&bytes, 0).unwrap();
    assert_eq!(end, bytes.len());
    assert_eq!(read, map);
    assert_eq!(read.root(), map.root());
    assert_eq!(read.entries(), map.entries());
}

#[test]
fn map_round_trip() {
    let map = two_entry_map();
    let mut bytes: Vec<u8> = vec![7, 7, 7];
    map.write_into(&mut bytes);
    let end = bytes.len();
    bytes.push(1);
    let (read, position) = StorageMap::read_from(&bytes, 3).unwrap();
    assert_eq!(position, end);
    assert_eq!(read, map);
    assert_eq!(StorageMap::read_from_bytes(&map.to_bytes()).unwrap(), map);
    assert_eq!(StorageMap::read_from_bytes(&[1]).unwrap(), StorageMap::new());
    let cloned = map.clone();
    assert_eq!(cloned, map);
}

#[test]
fn map_cut_short_is_end_of_input() {
    let bytes = two_entry_map().to_bytes();
    for len in 0..bytes.len() {
        assert_eq!(
            StorageMap::read_from_bytes(&bytes[..len]),
            Err(DeserializationError::UnexpectedEOF),
            "length {len}"
        );
    }
    assert_eq!(
        StorageMap::read_from(&bytes, bytes.len() + 1),
        Err(DeserializationError::UnexpectedEOF)
    );
}

#[test]
fn map_with_a_key_twice_is_rejected() {
    let mut bytes: Vec<u8> = Vec::new();
    write_usize(&mut bytes, 3);
    write_word(&mut bytes, &word(1, 2, 3, 40));
    write_word(&mut bytes, &word(1, 1, 1, 1));
    write_word(&mut bytes, &word(5, 6, 7, 77));
    write_word(&mut bytes, &word(2, 2, 2, 2));
    write_word(&mut bytes, &word(5, 6, 7, 77));
    write_word(&mut bytes, &word(3, 3, 3, 3));
    assert_eq!(
        StorageMap::read_from_bytes(&bytes),
        Err(DeserializationError::InvalidValue("multiple values provided for key 77".to_string()))
    );
    // miden_core reports the same
    let theirs = <Smt as miden_core::utils::Deserializable>::read_from_bytes(&bytes);
    assert_eq!(
        theirs.unwrap_err().to_string(),
        StorageMap::read_from_bytes(&bytes).unwrap_err().to_string()
    );
}

#[test]
fn map_with_a_key_twice_after_an_empty_value_is_rejected() {
    let mut bytes: Vec<u8> = Vec::new();
    write_usize(&mut bytes, 2);
    write_word(&mut bytes, &word(1, 2, 3, 4));
    write_word(&mut bytes, &empty_word());
    write_word(&mut bytes, &word(1, 2, 3, 4));
    write_word(&mut bytes, &word(3, 3, 3, 3));
    assert_eq!(
        StorageMap::read_from_bytes(&bytes),
        Err(DeserializationError::InvalidValue("multiple values provided for key 4".to_string()))
    );
}

#[test]
fn map_with_an_empty_value_holds_no_entry_for_it() {
    let mut bytes: Vec<u8> = Vec::new();
    write_usize(&mut bytes, 2);
    write_word(&mut bytes, &word(1, 2, 3, 4));
    write_word(&mut bytes, &empty_word());
    write_word(&mut bytes, &word(5, 6, 7, 8));
    write_word(&mut bytes, &word(3, 3, 3, 3));
    let map = StorageMap::read_from_bytes(&bytes).unwrap();
    assert_eq!(map.entries(), vec![(word(5, 6, 7, 8), word(3, 3, 3, 3))]);
}

#[test]
fn map_with_a_bad_element_is_rejected() {
    // in a key
    let mut bytes: Vec<u8> = Vec::new();
    write_usize(&mut bytes, 1);
    write_u64(&mut bytes, MODULUS);
    write_u64(&mut bytes, 0);
    write_u64(&mut bytes, 0);
    write_u64(&mut bytes, 0);
    write_word(&mut bytes, &word(1, 1, 1, 1));
    assert_eq!(
        StorageMap::read_from_bytes(&bytes),
        Err(DeserializationError::InvalidValue("Value not in the appropriate range".to_string()))
    );
    // in a value
    let mut bytes: Vec<u8> = Vec::new();
    write_usize(&mut bytes, 1);
    write_word(&mut bytes, &word(1, 1, 1, 1));
    write_u64(&mut bytes, 0);
    write_u64(&mut bytes, u64::MAX);
    write_u64(&mut bytes, 0);
    write_u64(&mut bytes, 0);
    assert_eq!(
        StorageMap::read_from_bytes(&bytes),
        Err(DeserializationError::InvalidValue(
            "invalid field element: value 18446744073709551615 is greater than or equal to the field modulus"
                .to_string()
        ))
    );
}

#[test]
fn map_that_announces_more_pairs_than_it_has_is_rejected() {
    let mut bytes: Vec<u8> = Vec::new();
    write_usize(&mut bytes, usize::MAX);
    write_word(&mut bytes, &word(1, 1, 1, 1));
    write_word(&mut bytes, &word(2, 2, 2, 2));
    assert_eq!(StorageMap::read_from_bytes(&bytes), Err(DeserializationError::UnexpectedEOF));
}
