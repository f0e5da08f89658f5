use miden_account_core::accounts::storage::header::AccountStorageHeader;
use miden_account_core::accounts::storage::map::StorageMap;
use miden_account_core::accounts::storage::slot::{StorageSlot, StorageSlotType};
use miden_account_core::accounts::storage::AccountStorage;
use miden_account_core::digest::Digest;
use miden_account_core::felt::{Felt, Word};

fn word(a: u64, b: u64, c: u64, d: u64) -> Word {
    [Felt::new(a), Felt::new(b), Felt::new(c), Felt::new(d)]
}

fn mock_map() -> StorageMap {
    let mut map = StorageMap::new();
    map.insert(Digest::new(word(101, 102, 103, 104)), word(1, 2, 3, 4));
    map.insert(Digest::new(word(105, 106, 107, 108)), word(5, 6, 7, 8));
    map
}

fn mock_storage() -> AccountStorage {
    AccountStorage::new(vec![
        StorageSlot::Value(word(1, 2, 3, 4)),
        StorageSlot::Value(word(5, 6, 7, 8)),
        StorageSlot::Mapping(mock_map()),
    ])
    .unwrap()
}

#[test]
fn test_from_account_storage() {
    // create new storage header from AccountStorage
    let slots = vec![
        (StorageSlotType::Value, [Felt::new(1), Felt::new(2), Felt::new(3), Felt::new(4)]),
        (StorageSlotType::Value, [Felt::new(5), Felt::new(6), Felt::new(7), Felt::new(8)]),
        (
            StorageSlotType::Mapping,
            [
                Felt::new(12405212884040084310),
                Felt::new(17614307840949763446),
                Felt::new(6101527485586301500),
                Felt::new(14442045877206841081),
            ],
        ),
    ];

    let expected_header = AccountStorageHeader::new(slots);
    let account_storage = mock_storage();

    assert_eq!(expected_header, AccountStorageHeader::from(account_storage))
}

#[test]
fn test_serde_account_storage_header() {
    // create new storage header
    let storage = mock_storage();
    let storage_header = AccountStorageHeader::from(storage);

    // serde storage header
    let bytes = storage_header.to_bytes();
    let deserialized = AccountStorageHeader::read_from_bytes(&bytes).unwrap();

    // assert deserialized == storage header
    assert_eq!(storage_header, deserialized);
}

#[test]
fn test_serde_account_storage_slot() {
    let storage = mock_storage();
    let serialized = storage.to_bytes();
    let deserialized = AccountStorage::read_from_bytes(&serialized).unwrap();
    assert_eq!(deserialized, storage)
}
