use miden_account_core::accounts::storage::header::{AccountStorageHeader, MAX_NUM_STORAGE_SLOTS};
use miden_account_core::accounts::storage::map::StorageMap;
use miden_account_core::accounts::storage::slot::{StorageSlot, StorageSlotType};
use miden_account_core::accounts::storage::AccountStorage;
use miden_account_core::codec::DeserializationError;
use miden_account_core::digest::Digest;
use miden_account_core::errors::AccountError;
use miden_account_core::felt::{empty_word, Felt, Word, MODULUS};

fn word(a: u64, b: u64, c: u64, d: u64) -> Word {
    [Felt::new(a), Felt::new(b), Felt::new(c), Felt::new(d)]
}

fn sample_map() -> StorageMap {
    let mut map = StorageMap::new();
    map.insert(Digest::new(word(101, 102, 103, 104)), word(1, 2, 3, 4));
    map.insert(Digest::new(word(105, 106, 107, 108)), word(5, 6, 7, 8));
    map
}

fn sample_storage() -> AccountStorage {
    AccountStorage::new(vec![
        StorageSlot::Value(word(1, 2, 3, 4)),
        StorageSlot::Mapping(sample_map()),
        StorageSlot::Value(word(5, 6, 7, MODULUS - 1)),
        StorageSlot::empty_map(),
        StorageSlot::empty_value(),
    ])
    .unwrap()
}

#[test]
fn default_detection() {
    assert!(StorageSlot::empty_value().is_default());
    assert!(StorageSlot::empty_map().is_default());
    assert!(StorageSlot::Value(empty_word()).is_default());
    assert!(StorageSlot::Mapping(StorageMap::new()).is_default());
    assert!(!StorageSlot::Value(word(0, 0, 0, 1)).is_default());
    assert!(!StorageSlot::Value(word(1, 0, 0, 0)).is_default());
    assert!(!StorageSlot::Mapping(sample_map()).is_default());
    // a value slot that holds the root of the empty map is not empty
    let empty_root = StorageSlot::empty_map().value();
    assert!(!StorageSlot::Value(empty_root).is_default());
}

#[test]
fn default_words() {
    assert_eq!(StorageSlot::Value(word(1, 2, 3, 4)).default_word(), empty_word());
    assert_eq!(StorageSlot::Mapping(sample_map()).default_word(), StorageMap::new().root().to_word());
    assert_eq!(StorageSlot::empty_map().default_word(), StorageSlot::empty_map().value());
    assert_eq!(StorageSlot::empty_value().default_word(), StorageSlot::empty_value().value());
}

#[test]
fn slot_value_and_type() {
    let slot = StorageSlot::Value(word(1, 2, 3, 4));
    assert_eq!(slot.value(), word(1, 2, 3, 4));
    assert_eq!(slot.slot_type(), StorageSlotType::Value);
    let slot = StorageSlot::Mapping(sample_map());
    assert_eq!(slot.value(), sample_map().root().to_word());
    assert_eq!(slot.slot_type(), StorageSlotType::Mapping);
    assert_eq!(StorageSlotType::Value.as_word(), word(0, 0, 0, 0));
    assert_eq!(StorageSlotType::Mapping.as_word(), word(1, 0, 0, 0));
}

#[test]
fn slot_as_eight_elements() {
    assert_eq!(StorageSlot::NUM_ELEMENTS_PER_STORAGE_SLOT, 8);
    let elements = StorageSlot::Value(word(1, 2, 3, 4)).as_elements();
    assert_eq!(
        elements,
        [
            Felt::new(1),
            Felt::new(2),
            Felt::new(3),
            Felt::new(4),
            Felt::new(0),
            Felt::new(0),
            Felt::new(0),
            Felt::new(0)
        ]
    );
    let root = sample_map().root().to_word();
    let elements = StorageSlot::Mapping(sample_map()).as_elements();
    assert_eq!(
        elements,
        [root[0], root[1], root[2], root[3], Felt::new(1), Felt::new(0), Felt::new(0), Felt::new(0)]
    );
}

#[test]
fn slot_bytes_are_the_tag_and_the_payload() {
    let slot = StorageSlot::Value(word(1, 2, 3, 4));
    let bytes = slot.to_bytes();
    assert_eq!(bytes.len(), 33);
    assert_eq!(bytes[0], 0);
    assert_eq!(bytes[1..9], [1, 0, 0, 0, 0, 0, 0, 0]);
    assert_eq!(bytes[25..33], [4, 0, 0, 0, 0, 0, 0, 0]);
    assert_eq!(slot.get_size_hint(), 33);
    let slot = StorageSlot::Mapping(sample_map());
    let bytes = slot.to_bytes();
    assert_eq!(bytes[0], 1);
    assert_eq!(bytes[1..].to_vec(), sample_map().to_bytes());
    assert_eq!(slot.get_size_hint(), bytes.len());
    assert_eq!(StorageSlot::empty_map().to_bytes(), vec![1, 1]);
    assert_eq!(StorageSlotType::Value.get_size_hint(), 1);
}

#[test]
fn slot_round_trip() {
    for slot in [
        StorageSlot::Value(word(1, 2, 3, 4)),
        StorageSlot::Value(word(MODULUS - 1, 0, MODULUS - 1, 0)),
        StorageSlot::empty_value(),
        StorageSlot::empty_map(),
        StorageSlot::Mapping(sample_map()),
    ] {
        let mut bytes: Vec<u8> = vec![3];
        slot.write_into(&mut bytes);
        let end = bytes.len();
        bytes.push(0);
        assert_eq!(StorageSlot::read_from(&bytes, 1), Ok((slot.clone(), end)));
        assert_eq!(StorageSlot::read_from_bytes(&slot.to_bytes()), Ok(slot));
    }
}

#[test]
fn slot_with_an_unknown_tag_is_rejected() {
    let mut bytes = StorageSlot::Value(word(1, 2, 3, 4)).to_bytes();
    bytes[0] = 2;
    assert_eq!(
        StorageSlot::read_from_bytes(&bytes),
        Err(DeserializationError::InvalidValue("2".to_string()))
    );
    bytes[0] = 255;
    assert_eq!(
        StorageSlot::read_from_bytes(&bytes),
        Err(DeserializationError::InvalidValue("255".to_string()))
    );
    assert_eq!(
        StorageSlotType::read_from(&[0, 1, 9], 2),
        Err(DeserializationError::InvalidValue("9".to_string()))
    );
    assert_eq!(StorageSlotType::read_from(&[0, 1, 9], 1), Ok((StorageSlotType::Mapping, 2)));
    assert_eq!(StorageSlotType::read_from(&[0, 1, 9], 0), Ok((StorageSlotType::Value, 1)));
    assert_eq!(StorageSlotType::read_from(&[0, 1, 9], 3), Err(DeserializationError::UnexpectedEOF));
}

#[test]
fn slot_cut_short_is_end_of_input() {
    for slot in [StorageSlot::Value(word(1, 2, 3, 4)), StorageSlot::Mapping(sample_map())] {
        let bytes = slot.to_bytes();
        for len in 0..bytes.len() {
            assert_eq!(
                StorageSlot::read_from_bytes(&bytes[..len]),
                Err(DeserializationError::UnexpectedEOF)
            );
        }
    }
}

#[test]
fn header_projects_each_slot() {
    let storage = sample_storage();
    let header = storage.get_header();
    assert_eq!(header.num_slots(), storage.slots().len());
    assert_eq!(header.num_slots(), storage.num_slots() as usize);
    assert_eq!(header.num_slots(), 5);
    for (i, slot) in storage.slots().iter().enumerate() {
        assert_eq!(header.slot(i), Ok(&(slot.slot_type(), slot.value())));
        assert_eq!(header.slots()[i], (slot.slot_type(), slot.value()));
    }
    assert_eq!(AccountStorageHeader::from(sample_storage()), header);
    assert_eq!(header.clone(), header);
}

#[test]
fn header_slot_bounds() {
    let header = sample_storage().get_header();
    for i in 0..5 {
        assert!(header.slot(i).is_ok());
    }
    for i in [5usize, 6, 100, 255] {
        assert_eq!(
            header.slot(i),
            Err(AccountError::StorageIndexOutOfBounds { max: 5, actual: i as u8 })
        );
    }
    // the index is reported within eight bits
    for i in [256usize, 300, usize::MAX] {
        assert_eq!(
            header.slot(i),
            Err(AccountError::StorageIndexOutOfBounds { max: 5, actual: 255 })
        );
    }
    let empty = AccountStorageHeader::new(Vec::new());
    assert_eq!(empty.num_slots(), 0);
    assert_eq!(
        empty.slot(0),
        Err(AccountError::StorageIndexOutOfBounds { max: 0, actual: 0 })
    );
}

#[test]
fn header_bytes_are_the_count_and_the_slots() {
    let header = AccountStorageHeader::new(vec![
        (StorageSlotType::Value, word(1, 2, 3, 4)),
        (StorageSlotType::Mapping, word(5, 6, 7, 8)),
    ]);
    let bytes = header.to_bytes();
    assert_eq!(bytes.len(), 1 + 2 * 33);
    assert_eq!(bytes[0], 2);
    assert_eq!(bytes[1], 0);
    assert_eq!(bytes[2..10], [1, 0, 0, 0, 0, 0, 0, 0]);
    assert_eq!(bytes[34], 1);
    assert_eq!(bytes[35..43], [5, 0, 0, 0, 0, 0, 0, 0]);
    assert_eq!(AccountStorageHeader::new(Vec::new()).to_bytes(), vec![0]);
}

#[test]
fn header_round_trip() {
    let mut slots = Vec::new();
    for count in [0usize, 1, 2, 254, 255] {
        while slots.len() < count {
            let i = slots.len() as u64;
            let slot_type =
                if i % 3 == 0 { StorageSlotType::Mapping } else { StorageSlotType::Value };
            slots.push((slot_type, word(i, MODULUS - 1 - i, i * i, 7)));
        }
        assert!(slots.len() <= MAX_NUM_STORAGE_SLOTS);
        let header = AccountStorageHeader::new(slots.clone());
        assert_eq!(header.num_slots(), count);
        let mut bytes: Vec<u8> = vec![9, 9];
        header.write_into(&mut bytes);
        let end = bytes.len();
        assert_eq!(end, 2 + 1 + 33 * count);
        bytes.push(5);
        let (read, position) = AccountStorageHeader::read_from(&bytes, 2).unwrap();
        assert_eq!(position, end);
        assert_eq!(read, header);
        assert_eq!(AccountStorageHeader::read_from_bytes(&header.to_bytes()), Ok(header));
    }
}

#[test]
fn header_cut_short_or_malformed_is_rejected() {
    let header = sample_storage().get_header();
    let bytes = header.to_bytes();
    for len in 0..bytes.len() {
        assert_eq!(
            AccountStorageHeader::read_from_bytes(&bytes[..len]),
            Err(DeserializationError::UnexpectedEOF)
        );
    }
    // a count that announces one more slot than there is
    let mut more = bytes.clone();
    more[0] = 6;
    assert_eq!(
        AccountStorageHeader::read_from_bytes(&more),
        Err(DeserializationError::UnexpectedEOF)
    );
    // a count that announces fewer slots: the rest is left unread
    let mut fewer = bytes.clone();
    fewer[0] = 1;
    let read = AccountStorageHeader::read_from_bytes(&fewer).unwrap();
    assert_eq!(read.num_slots(), 1);
    assert_eq!(read.slot(0), header.slot(0));
    // a tag that stands for no type
    let mut bad_tag = bytes.clone();
    bad_tag[1 + 33] = 7;
    assert_eq!(
        AccountStorageHeader::read_from_bytes(&bad_tag),
        Err(DeserializationError::InvalidValue("7".to_string()))
    );
    // an element that is not canonical
    let mut bad_element = bytes.clone();
    for byte in bad_element[2..10].iter_mut() {
        *byte = 0xff;
    }
    assert_eq!(
        AccountStorageHeader::read_from_bytes(&bad_element),
        Err(DeserializationError::InvalidValue(
            "invalid field element: value 18446744073709551615 is greater than or equal to the field modulus"
                .to_string()
        ))
    );
}

#[test]
fn storage_holds_at_most_255_slots() {
    let mut slots = Vec::new();
    for i in 0..255u64 {
        slots.push(StorageSlot::Value(word(i, 0, 0, 0)));
    }
    let storage = AccountStorage::new(slots.clone()).unwrap();
    assert_eq!(storage.num_slots(), 255);
    assert_eq!(storage.get_header().num_slots(), 255);
    slots.push(StorageSlot::empty_value());
    assert_eq!(AccountStorage::new(slots.clone()), Err(AccountError::StorageTooManySlots(256)));
    slots.push(StorageSlot::empty_map());
    assert_eq!(AccountStorage::new(slots), Err(AccountError::StorageTooManySlots(257)));
}

#[test]
fn storage_round_trip() {
    let storage = sample_storage();
    let mut bytes: Vec<u8> = vec![1];
    storage.write_into(&mut bytes);
    let end = bytes.len();
    bytes.push(0);
    assert_eq!(bytes[1], 5);
    let (read, position) = AccountStorage::read_from(&bytes, 1).unwrap();
    assert_eq!(position, end);
    assert_eq!(read, storage);
    assert_eq!(read.get_header(), storage.get_header());
    let empty = AccountStorage::new(Vec::new()).unwrap();
    assert_eq!(empty.to_bytes(), vec![0]);
    assert_eq!(AccountStorage::read_from_bytes(&[0]), Ok(empty));
    let bytes = storage.to_bytes();
    for len in 0..bytes.len() {
        assert_eq!(
            AccountStorage::read_from_bytes(&bytes[..len]),
            Err(DeserializationError::UnexpectedEOF)
        );
    }
}
