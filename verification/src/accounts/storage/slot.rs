//! Storage slots: a plain value, or a map known by its root.

use crate::accounts::storage::map::{decode_map, StorageMap};
use crate::codec::{
    canonical_ints, decode_u8, decode_word, lemma_decode_word_of_bytes, lemma_word_bytes_len,
    read_u8, read_word, word_bytes, write_u8, write_word, DecodeFailure, DeserializationError,
};
use crate::felt::{empty_word, empty_word_ints, felt_ints, word_eq, word_ints, Felt, Word};
use crate::merkle::{no_entries, smt_empty_root, smt_root};
use crate::text::{decimal, decimal_string};
use vstd::prelude::*;
use vstd::std_specs::cmp::PartialEqSpecImpl;

verus! {

/// The two kinds of storage slot.
#[derive(Debug, Clone, Copy, PartialEq, Eq, Structural)]
pub enum StorageSlotType {
    /// A slot that holds a word.
    Value,
    /// A slot that holds the root of a map.
    Mapping,
}

/// What reading a slot type at `pos` gives: one byte, 0 for a value and 1 for a map.
pub open spec fn decode_slot_type(bytes: Seq<u8>, pos: int) -> Result<
    (StorageSlotType, int),
    DecodeFailure,
> {
    match decode_u8(bytes, pos) {
        Err(failure) => Err(failure),
        Ok((tag, next)) => if tag == 0 {
            Ok((StorageSlotType::Value, next))
        } else if tag == 1 {
            Ok((StorageSlotType::Mapping, next))
        } else {
            Err(DecodeFailure::InvalidValue(decimal(tag as nat)))
        },
    }
}

impl StorageSlotType {
    /// The byte that stands for the type.
    pub open spec fn tag(self) -> u8 {
        match self {
            StorageSlotType::Value => 0,
            StorageSlotType::Mapping => 1,
        }
    }

    /// The integers of the word that stands for the type: the tag, then three zeros.
    pub open spec fn word(self) -> Seq<u64> {
        seq![self.tag() as u64, 0u64, 0u64, 0u64]
    }

    /// The word that stands for the type in kernel memory.
    pub fn as_word(&self) -> (word: Word)
        ensures
            word_ints(word) == self.word(),
    {
        let first = match self {
            StorageSlotType::Value => Felt::zero(),
            StorageSlotType::Mapping => Felt::one(),
        };
        let word = [first, Felt::zero(), Felt::zero(), Felt::zero()];
        proof {
            assert(word_ints(word) =~= self.word());
        }
        word
    }

    /// Appends the tag of the type.
    pub fn write_into(&self, target: &mut Vec<u8>)
        ensures
            final(target)@ == old(target)@.push(self.tag()),
    {
        match self {
            StorageSlotType::Value => write_u8(target, 0),
            StorageSlotType::Mapping => write_u8(target, 1),
        }
    }

    /// The number of bytes that the type takes.
    pub fn get_size_hint(&self) -> (size: usize)
        ensures
            size == 1,
    {
        1
    }

    /// Reads a slot type at `pos`, and returns it with the position after it.
    pub fn read_from(bytes: &[u8], pos: usize) -> (r: Result<
        (StorageSlotType, usize),
        DeserializationError,
    >)
        ensures
            match decode_slot_type(bytes@, pos as int) {
                Ok((slot_type, next)) => r matches Ok((read, end)) && read == slot_type && end
                    == next,
                Err(failure) => r matches Err(e) && e@ == failure,
            },
    {
        match read_u8(bytes, pos) {
            Err(e) => Err(e),
            Ok((tag, next)) => {
                if tag == 0 {
                    Ok((StorageSlotType::Value, next))
                } else if tag == 1 {
                    Ok((StorageSlotType::Mapping, next))
                } else {
                    Err(DeserializationError::InvalidValue(decimal_string(tag as u64)))
                }
            },
        }
    }
}

/// A storage slot: a word, or a map of which the slot shows the root.
#[derive(Debug, Eq)]
pub enum StorageSlot {
    /// A word.
    Value(Word),
    /// A map; the slot shows its root.
    Mapping(StorageMap),
}

/// A storage slot as a mathematical value.
pub enum SlotView {
    /// The integers of the word that the slot holds.
    Value(Seq<u64>),
    /// The entries of the map that the slot holds.
    Mapping(Map<Seq<u64>, Seq<u64>>),
}

impl View for StorageSlot {
    type V = SlotView;

    open spec fn view(&self) -> SlotView {
        match self {
            StorageSlot::Value(word) => SlotView::Value(word_ints(*word)),
            StorageSlot::Mapping(map) => SlotView::Mapping(map@),
        }
    }
}

impl PartialEqSpecImpl for StorageSlot {
    open spec fn obeys_eq_spec() -> bool {
        false
    }

    open spec fn eq_spec(&self, other: &StorageSlot) -> bool {
        self@ == other@
    }
}

impl PartialEq for StorageSlot {
    /// Slots that compare equal have the same content. Two value slots compare equal if and
    /// only if their words are equal; two map slots as their maps do; a value slot and a map
    /// slot never.
    fn eq(&self, other: &StorageSlot) -> (equal: bool)
        ensures
            equal ==> self@ == other@,
            self is Value && other is Value ==> equal == (self@ == other@),
            (self is Value) != (other is Value) ==> !equal,
    {
        match (self, other) {
            (StorageSlot::Value(a), StorageSlot::Value(b)) => word_eq(a, b),
            (StorageSlot::Mapping(a), StorageSlot::Mapping(b)) => *a == *b,
            _ => false,
        }
    }
}

impl Clone for StorageSlot {
    fn clone(&self) -> (copy: StorageSlot)
        ensures
            copy@ == self@,
            copy.encoding() == self.encoding(),
    {
        match self {
            StorageSlot::Value(word) => StorageSlot::Value(*word),
            StorageSlot::Mapping(map) => StorageSlot::Mapping(map.clone()),
        }
    }
}

impl SlotView {
    /// The type of the slot.
    pub open spec fn slot_type(self) -> StorageSlotType {
        match self {
            SlotView::Value(_) => StorageSlotType::Value,
            SlotView::Mapping(_) => StorageSlotType::Mapping,
        }
    }

    /// The integers of the word that the slot shows: the word itself, or the root of the map.
    pub open spec fn value(self) -> Seq<u64> {
        match self {
            SlotView::Value(ints) => ints,
            SlotView::Mapping(entries) => smt_root(entries),
        }
    }

    /// The integers of the word that an empty slot of this type shows: the empty word, or
    /// the root of a map without entries.
    pub open spec fn default_value(self) -> Seq<u64> {
        match self {
            SlotView::Value(_) => empty_word_ints(),
            SlotView::Mapping(_) => smt_root(no_entries()),
        }
    }
}

/// What reading a slot at `pos` gives: the type, then a word or a map.
pub open spec fn decode_slot(bytes: Seq<u8>, pos: int) -> Result<(SlotView, int), DecodeFailure> {
    match decode_slot_type(bytes, pos) {
        Err(failure) => Err(failure),
        Ok((StorageSlotType::Value, start)) => match decode_word(bytes, start, false) {
            Err(failure) => Err(failure),
            Ok((ints, next)) => Ok((SlotView::Value(ints), next)),
        },
        Ok((StorageSlotType::Mapping, start)) => match decode_map(bytes, start) {
            Err(failure) => Err(failure),
            Ok((entries, next)) => Ok((SlotView::Mapping(entries), next)),
        },
    }
}

impl StorageSlot {
    /// The number of field elements that a slot takes in kernel memory.
    pub const NUM_ELEMENTS_PER_STORAGE_SLOT: usize = 8;

    /// Whether the slot is made of canonical elements, and its map, if it has one, lists
    /// exactly its entries. Every slot in executable code is.
    pub open spec fn wf(&self) -> bool {
        match self {
            StorageSlot::Value(word) => canonical_ints(word_ints(*word)),
            StorageSlot::Mapping(map) => map.wf(),
        }
    }

    /// The bytes of the slot: the tag of its type, then the word or the map.
    pub open spec fn encoding(&self) -> Seq<u8> {
        match self {
            StorageSlot::Value(word) => seq![0u8] + word_bytes(word_ints(*word)),
            StorageSlot::Mapping(map) => seq![1u8] + map.encoding(),
        }
    }

    /// Whether the slot shows what an empty slot of its type shows.
    pub fn is_default(&self) -> (r: bool)
        ensures
            r == (self@.value() == self@.default_value()),
            self matches StorageSlot::Value(word) ==> r == (word_ints(*word) == empty_word_ints()),
    {
        match self {
            StorageSlot::Value(value) => word_eq(value, &empty_word()),
            StorageSlot::Mapping(map) => word_eq(&map.root().to_word(), &smt_empty_root()),
        }
    }

    /// The word that an empty slot of this type shows.
    pub fn default_word(&self) -> (word: Word)
        ensures
            word_ints(word) == self@.default_value(),
    {
        match self {
            StorageSlot::Value(_) => empty_word(),
            StorageSlot::Mapping(_) => smt_empty_root(),
        }
    }

    /// A value slot that holds the empty word.
    pub fn empty_value() -> (slot: StorageSlot)
        ensures
            slot@ == SlotView::Value(empty_word_ints()),
            slot.wf(),
    {
        StorageSlot::Value(empty_word())
    }

    /// A map slot that holds a map without entries.
    pub fn empty_map() -> (slot: StorageSlot)
        ensures
            slot@ == SlotView::Mapping(no_entries()),
            slot.wf(),
    {
        StorageSlot::Mapping(StorageMap::new())
    }

    /// The slot as the eight field elements that stand for it in kernel memory: the word
    /// that it shows, then the word of its type.
    pub fn as_elements(&self) -> (elements: [Felt; 8])
        ensures
            felt_ints(elements@) == self@.value() + self@.slot_type().word(),
    {
        let value = self.value();
        let kind = self.slot_type().as_word();
        let elements = [
            value[0],
            value[1],
            value[2],
            value[3],
            kind[0],
            kind[1],
            kind[2],
            kind[3],
        ];
        proof {
            assert(felt_ints(elements@) =~= word_ints(value) + word_ints(kind));
        }
        elements
    }

    /// The word that the slot shows: its value, or the root of its map.
    pub fn value(&self) -> (word: Word)
        ensures
            word_ints(word) == self@.value(),
    {
        match self {
            StorageSlot::Value(value) => *value,
            StorageSlot::Mapping(map) => map.root().to_word(),
        }
    }

    /// The type of the slot.
    pub fn slot_type(&self) -> (slot_type: StorageSlotType)
        ensures
            slot_type == self@.slot_type(),
    {
        match self {
            StorageSlot::Value(_) => StorageSlotType::Value,
            StorageSlot::Mapping(_) => StorageSlotType::Mapping,
        }
    }

    /// Appends the bytes of the slot.
    pub fn write_into(&self, target: &mut Vec<u8>)
        ensures
            final(target)@ == old(target)@ + self.encoding(),
    {
        self.slot_type().write_into(target);
        match self {
            StorageSlot::Value(value) => {
                write_word(target, value);
                proof {
                    assert(target@ =~= old(target)@ + self.encoding());
                }
            },
            StorageSlot::Mapping(map) => {
                map.write_into(target);
                proof {
                    assert(target@ =~= old(target)@ + self.encoding());
                }
            },
        }
    }

    /// The bytes of the slot.
    pub fn to_bytes(&self) -> (bytes: Vec<u8>)
        ensures
            bytes@ == self.encoding(),
    {
        let mut bytes: Vec<u8> = Vec::new();
        self.write_into(&mut bytes);
        bytes
    }

    /// The number of bytes that the slot takes, or the largest number the machine holds
    /// where that is less.
    pub fn get_size_hint(&self) -> (size: usize)
        ensures
            size == if self.encoding().len() <= usize::MAX {
                self.encoding().len()
            } else {
                usize::MAX as nat
            },
    {
        let tag = self.slot_type().get_size_hint();
        match self {
            StorageSlot::Value(word) => {
                proof {
                    lemma_word_bytes_len(word_ints(*word));
                }
                tag + 32
            },
            StorageSlot::Mapping(map) => {
                let rest = map.get_size_hint();
                if rest > usize::MAX - tag {
                    usize::MAX
                } else {
                    tag + rest
                }
            },
        }
    }

    /// Reads a slot at `pos`, and returns it with the position after it.
    ///
    /// Fails where the tag is neither 0 nor 1, where the input ends early, and where the
    /// word or the map cannot be read.
    pub fn read_from(bytes: &[u8], pos: usize) -> (r: Result<
        (StorageSlot, usize),
        DeserializationError,
    >)
        ensures
            match decode_slot(bytes@, pos as int) {
                Ok((view, next)) => r matches Ok((slot, end)) && slot@ == view && end == next
                    && slot.wf(),
                Err(failure) => r matches Err(e) && e@ == failure,
            },
    {
        let (slot_type, start) = match StorageSlotType::read_from(bytes, pos) {
            Err(e) => {
                return Err(e);
            },
            Ok(read) => read,
        };
        match slot_type {
            StorageSlotType::Value => {
                match read_word(bytes, start) {
                    Err(e) => Err(e),
                    Ok((word, next)) => Ok((StorageSlot::Value(word), next)),
                }
            },
            StorageSlotType::Mapping => {
                match StorageMap::read_from(bytes, start) {
                    Err(e) => Err(e),
                    Ok((map, next)) => Ok((StorageSlot::Mapping(map), next)),
                }
            },
        }
    }

    /// Reads a slot from the start of `bytes`; bytes after it are left unread.
    pub fn read_from_bytes(bytes: &[u8]) -> (r: Result<StorageSlot, DeserializationError>)
        ensures
            match decode_slot(bytes@, 0) {
                Ok((view, next)) => r matches Ok(slot) && slot@ == view && slot.wf(),
                Err(failure) => r matches Err(e) && e@ == failure,
            },
    {
        match StorageSlot::read_from(bytes, 0) {
            Ok((slot, _)) => Ok(slot),
            Err(e) => Err(e),
        }
    }

    /// Reading back the bytes of a slot gives a slot with the same content, and
    /// reads all of the bytes.
    pub proof fn lemma_round_trip(&self)
        requires
            self.wf(),
            self matches StorageSlot::Mapping(map) ==> map.pairs().len() <= usize::MAX,
        ensures
            decode_slot(self.encoding(), 0) == Ok::<(SlotView, int), DecodeFailure>(
                (self@, self.encoding().len() as int),
            ),
    {
        let bytes = self.encoding();
        assert(bytes.subrange(0, bytes.len() as int) =~= bytes);
        self.lemma_round_trip_at(bytes, 0);
    }

    /// Reading back the bytes of a slot gives a slot with the same content, and ends where
    /// the bytes of the slot end.
    pub proof fn lemma_round_trip_at(&self, bytes: Seq<u8>, pos: int)
        requires
            self.wf(),
            self matches StorageSlot::Mapping(map) ==> map.pairs().len() <= usize::MAX,
            0 <= pos,
            pos + self.encoding().len() <= bytes.len(),
            bytes.subrange(pos, pos + self.encoding().len()) == self.encoding(),
        ensures
            decode_slot(bytes, pos) == Ok::<(SlotView, int), DecodeFailure>(
                (self@, pos + self.encoding().len()),
            ),
    {
        let all = bytes.subrange(pos, pos + self.encoding().len());
        assert(bytes[pos] == all[0]);
        match self {
            StorageSlot::Value(word) => {
                let ints = word_ints(*word);
                lemma_word_bytes_len(ints);
                assert(bytes.subrange(pos + 1, pos + 33) =~= all.subrange(1, 33));
                assert(all.subrange(1, 33) =~= word_bytes(ints));
                lemma_decode_word_of_bytes(bytes, pos + 1, ints, false);
            },
            StorageSlot::Mapping(map) => {
                let len = map.encoding().len() as int;
                assert(bytes.subrange(pos + 1, pos + 1 + len) =~= all.subrange(1, 1 + len));
                assert(all.subrange(1, 1 + len) =~= map.encoding());
                map.lemma_round_trip_at(bytes, pos + 1);
            },
        }
    }
}

} // verus!
