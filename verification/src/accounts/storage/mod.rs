//! The storage of an account: its slots, their headers, and the maps behind map slots.

pub mod header;
pub mod map;
pub mod slot;

use crate::accounts::storage::header::{
    headers_of, AccountStorageHeader, SlotHeader, MAX_NUM_STORAGE_SLOTS,
};
use crate::accounts::storage::slot::{decode_slot, SlotView, StorageSlot, StorageSlotType};
use crate::codec::{decode_u8, read_u8, write_u8, DecodeFailure, DeserializationError};
use crate::errors::AccountError;
use crate::felt::Word;
use vstd::prelude::*;
use vstd::std_specs::cmp::PartialEqSpecImpl;

verus! {

/// The headers of a list of slots: of each slot, in order, its type and the word that it
/// shows.
pub open spec fn projection(slots: Seq<SlotView>) -> Seq<SlotHeader> {
    Seq::new(slots.len(), |i: int| (slots[i].slot_type(), slots[i].value()))
}

/// The content of each slot of a list.
pub open spec fn slot_views(slots: Seq<StorageSlot>) -> Seq<SlotView> {
    Seq::new(slots.len(), |i: int| slots[i]@)
}

/// The bytes of the slots of a list, in order.
pub open spec fn slots_body(slots: Seq<StorageSlot>) -> Seq<u8>
    decreases slots.len(),
{
    if slots.len() == 0 {
        Seq::empty()
    } else {
        slots_body(slots.drop_last()) + slots.last().encoding()
    }
}

/// What reading `n` slots at `pos` gives; the first that fails decides the error.
pub open spec fn decode_slots(bytes: Seq<u8>, pos: int, n: nat) -> Result<
    (Seq<SlotView>, int),
    DecodeFailure,
>
    decreases n,
{
    if n == 0 {
        Ok((Seq::empty(), pos))
    } else {
        match decode_slots(bytes, pos, (n - 1) as nat) {
            Err(failure) => Err(failure),
            Ok((slots, mid)) => match decode_slot(bytes, mid) {
                Err(failure) => Err(failure),
                Ok((slot, next)) => Ok((slots.push(slot), next)),
            },
        }
    }
}

/// What reading a storage at `pos` gives: the number of slots in one byte, then as many
/// slots.
pub open spec fn decode_storage(bytes: Seq<u8>, pos: int) -> Result<
    (Seq<SlotView>, int),
    DecodeFailure,
> {
    match decode_u8(bytes, pos) {
        Err(failure) => Err(failure),
        Ok((n, start)) => decode_slots(bytes, start, n as nat),
    }
}

/// Once a slot fails, reading more slots fails in the same way.
pub proof fn lemma_decode_slots_stops(bytes: Seq<u8>, pos: int, i: nat, n: nat)
    requires
        i < n,
        decode_slots(bytes, pos, i) is Ok,
        decode_slot(bytes, decode_slots(bytes, pos, i)->Ok_0.1) is Err,
    ensures
        decode_slots(bytes, pos, n) == Err::<(Seq<SlotView>, int), DecodeFailure>(
            decode_slot(bytes, decode_slots(bytes, pos, i)->Ok_0.1)->Err_0,
        ),
    decreases n,
{
    if n > i + 1 {
        lemma_decode_slots_stops(bytes, pos, i, (n - 1) as nat);
    }
}

/// Whether every slot of the list is well formed and has a map, if any, of a size that
/// the machine can count.
pub open spec fn slots_wf(slots: Seq<StorageSlot>) -> bool {
    forall|i: int|
        0 <= i < slots.len() ==> (#[trigger] slots[i]).wf() && (slots[i] matches StorageSlot::Mapping(
            map,
        ) ==> map.pairs().len() <= usize::MAX)
}

/// Reading back the bytes of a list of well-formed slots gives their contents.
pub proof fn lemma_decode_slots_of_bytes(bytes: Seq<u8>, pos: int, slots: Seq<StorageSlot>)
    requires
        0 <= pos,
        pos + slots_body(slots).len() <= bytes.len(),
        bytes.subrange(pos, pos + slots_body(slots).len()) == slots_body(slots),
        slots_wf(slots),
    ensures
        decode_slots(bytes, pos, slots.len()) == Ok::<(Seq<SlotView>, int), DecodeFailure>(
            (slot_views(slots), pos + slots_body(slots).len()),
        ),
    decreases slots.len(),
{
    let n = slots.len() as int;
    if n > 0 {
        let front = slots.drop_last();
        let last = slots.last();
        let head = slots_body(front).len() as int;
        let tail = last.encoding().len() as int;
        let all = bytes.subrange(pos, pos + head + tail);
        assert(bytes.subrange(pos, pos + head) =~= all.subrange(0, head));
        assert(all.subrange(0, head) =~= slots_body(front));
        assert forall|i: int| 0 <= i < front.len() implies (#[trigger] front[i]).wf() && (
        front[i] matches StorageSlot::Mapping(map) ==> map.pairs().len() <= usize::MAX) by {
            assert(front[i] == slots[i]);
        }
        lemma_decode_slots_of_bytes(bytes, pos, front);
        assert(bytes.subrange(pos + head, pos + head + tail) =~= all.subrange(head, head + tail));
        assert(all.subrange(head, head + tail) =~= last.encoding());
        assert(slots[n - 1].wf());
        last.lemma_round_trip_at(bytes, pos + head);
        assert(slot_views(front).push(last@) =~= slot_views(slots));
    } else {
        assert(slot_views(slots) =~= Seq::empty());
    }
}

/// The storage of an account: at most 255 slots, in an order that is part of what the
/// account commits to.
#[derive(Debug, Eq)]
pub struct AccountStorage {
    slots: Vec<StorageSlot>,
}

impl PartialEqSpecImpl for AccountStorage {
    open spec fn obeys_eq_spec() -> bool {
        false
    }

    open spec fn eq_spec(&self, other: &AccountStorage) -> bool {
        self@ == other@
    }
}

impl PartialEq for AccountStorage {
    /// Storages compare equal where they have as many slots and their slots compare equal
    /// one by one. Storages that compare equal have the same content.
    fn eq(&self, other: &AccountStorage) -> (equal: bool)
        ensures
            equal ==> self@ == other@,
    {
        if self.slots.len() != other.slots.len() {
            return false;
        }
        let mut i: usize = 0;
        while i < self.slots.len()
            invariant
                i <= self.slots.len(),
                self.slots.len() == other.slots.len(),
                forall|k: int| 0 <= k < i ==> self@[k] == other@[k],
            decreases self.slots.len() - i,
        {
            if !(self.slots[i] == other.slots[i]) {
                return false;
            }
            i += 1;
        }
        proof {
            assert(self@ =~= other@);
        }
        true
    }
}

impl View for AccountStorage {
    type V = Seq<SlotView>;

    closed spec fn view(&self) -> Seq<SlotView> {
        slot_views(self.slots@)
    }
}

impl Clone for AccountStorage {
    fn clone(&self) -> (copy: AccountStorage)
        ensures
            copy@ == self@,
    {
        proof {
            use_type_invariant(self);
        }
        let mut slots: Vec<StorageSlot> = Vec::new();
        let mut i: usize = 0;
        while i < self.slots.len()
            invariant
                i <= self.slots.len(),
                slots.len() == i,
                slot_views(slots@) == slot_views(self.slots@).take(i as int),
            decreases self.slots.len() - i,
        {
            let ghost before = slot_views(slots@);
            let slot = self.slots[i].clone();
            slots.push(slot);
            proof {
                assert(slot_views(slots@) =~= before.push(self.slots@[i as int]@));
                assert(slot_views(slots@) =~= slot_views(self.slots@).take(i + 1));
            }
            i += 1;
        }
        proof {
            assert(slot_views(self.slots@).take(i as int) =~= slot_views(self.slots@));
        }
        AccountStorage { slots }
    }
}

impl AccountStorage {
    /// A storage never has more than 255 slots.
    #[verifier::type_invariant]
    pub closed spec fn bounded(&self) -> bool {
        self.slots.len() <= MAX_NUM_STORAGE_SLOTS
    }

    /// The storage made of `slots`.
    ///
    /// Fails if and only if there are more than 255 slots; the error carries their number.
    pub fn new(slots: Vec<StorageSlot>) -> (r: Result<AccountStorage, AccountError>)
        ensures
            slots.len() <= MAX_NUM_STORAGE_SLOTS ==> (r matches Ok(storage) && storage@
                == slot_views(slots@)),
            slots.len() > MAX_NUM_STORAGE_SLOTS ==> (r matches Err(e) && e
                == AccountError::StorageTooManySlots(slots.len() as u64)),
    {
        let n = slots.len();
        if n > MAX_NUM_STORAGE_SLOTS {
            Err(AccountError::StorageTooManySlots(n as u64))
        } else {
            Ok(AccountStorage { slots })
        }
    }

    /// The slots, in order.
    pub fn slots(&self) -> (slots: &Vec<StorageSlot>)
        ensures
            slot_views(slots@) == self@,
            slots.len() <= MAX_NUM_STORAGE_SLOTS,
    {
        proof {
            use_type_invariant(self);
        }
        &self.slots
    }

    /// The number of slots.
    pub fn num_slots(&self) -> (n: u8)
        ensures
            n == self@.len(),
    {
        proof {
            use_type_invariant(self);
        }
        self.slots.len() as u8
    }

    /// The header of the storage: of each slot, in order, its type and the word that it
    /// shows.
    pub fn get_header(&self) -> (header: AccountStorageHeader)
        ensures
            header@ == projection(self@),
    {
        proof {
            use_type_invariant(self);
        }
        let mut pairs: Vec<(StorageSlotType, Word)> = Vec::new();
        let mut i: usize = 0;
        while i < self.slots.len()
            invariant
                i <= self.slots.len(),
                pairs.len() == i,
                headers_of(pairs@) == projection(self@).take(i as int),
            decreases self.slots.len() - i,
        {
            let ghost before = headers_of(pairs@);
            let slot = &self.slots[i];
            let slot_type = slot.slot_type();
            let word = slot.value();
            pairs.push((slot_type, word));
            proof {
                assert(self@[i as int] == slot@);
                assert(headers_of(pairs@) =~= projection(self@).take(i + 1));
            }
            i += 1;
        }
        proof {
            assert(projection(self@).take(i as int) =~= projection(self@));
        }
        AccountStorageHeader::new(pairs)
    }

    /// The bytes of the storage: one byte for the number of slots, then each slot.
    pub closed spec fn encoding(&self) -> Seq<u8> {
        seq![self.slots.len() as u8] + slots_body(self.slots@)
    }

    /// Whether every slot of the storage is well formed. Every storage in executable code
    /// is.
    pub closed spec fn wf(&self) -> bool {
        self.slots.len() <= MAX_NUM_STORAGE_SLOTS && slots_wf(self.slots@)
    }

    /// Appends the bytes of the storage.
    pub fn write_into(&self, target: &mut Vec<u8>)
        ensures
            final(target)@ == old(target)@ + self.encoding(),
    {
        proof {
            use_type_invariant(self);
        }
        write_u8(target, self.slots.len() as u8);
        let mut i: usize = 0;
        while i < self.slots.len()
            invariant
                i <= self.slots.len(),
                target@ == old(target)@ + seq![self.slots.len() as u8] + slots_body(
                    self.slots@.take(i as int),
                ),
            decreases self.slots.len() - i,
        {
            proof {
                let next = self.slots@.take(i + 1);
                assert(next.drop_last() == self.slots@.take(i as int));
                assert(next.last() == self.slots@[i as int]);
            }
            self.slots[i].write_into(target);
            i += 1;
        }
        proof {
            assert(self.slots@.take(i as int) == self.slots@);
            assert(target@ =~= old(target)@ + self.encoding());
        }
    }

    /// The bytes of the storage.
    pub fn to_bytes(&self) -> (bytes: Vec<u8>)
        ensures
            bytes@ == self.encoding(),
    {
        let mut bytes: Vec<u8> = Vec::new();
        self.write_into(&mut bytes);
        bytes
    }

    /// Reads a storage at `pos`, and returns it with the position after it.
    ///
    /// Fails where the input ends early and where a slot cannot be read.
    pub fn read_from(bytes: &[u8], pos: usize) -> (r: Result<
        (AccountStorage, usize),
        DeserializationError,
    >)
        ensures
            match decode_storage(bytes@, pos as int) {
                Ok((slots, next)) => r matches Ok((storage, end)) && storage@ == slots && end
                    == next,
                Err(failure) => r matches Err(e) && e@ == failure,
            },
    {
        let (n, start) = match read_u8(bytes, pos) {
            Err(e) => {
                return Err(e);
            },
            Ok(read) => read,
        };
        let mut slots: Vec<StorageSlot> = Vec::new();
        let mut at: usize = start;
        let mut i: usize = 0;
        proof {
            assert(slot_views(slots@) =~= Seq::empty());
        }
        while i < n as usize
            invariant
                i <= n,
                slots.len() == i,
                decode_u8(bytes@, pos as int) matches Ok((count, first)) && count == n && first
                    == start,
                decode_slots(bytes@, start as int, i as nat) matches Ok((views, next)) && views
                    == slot_views(slots@) && next == at,
            decreases n - i,
        {
            let ghost before = slot_views(slots@);
            let (slot, next) = match StorageSlot::read_from(bytes, at) {
                Err(e) => {
                    proof {
                        lemma_decode_slots_stops(bytes@, start as int, i as nat, n as nat);
                    }
                    return Err(e);
                },
                Ok(read) => read,
            };
            let ghost view = slot@;
            slots.push(slot);
            proof {
                assert(slot_views(slots@) =~= before.push(view));
            }
            at = next;
            i += 1;
        }
        Ok((AccountStorage { slots }, at))
    }

    /// Reads a storage from the start of `bytes`; bytes after it are left unread.
    pub fn read_from_bytes(bytes: &[u8]) -> (r: Result<AccountStorage, DeserializationError>)
        ensures
            match decode_storage(bytes@, 0) {
                Ok((slots, next)) => r matches Ok(storage) && storage@ == slots,
                Err(failure) => r matches Err(e) && e@ == failure,
            },
    {
        match AccountStorage::read_from(bytes, 0) {
            Ok((storage, _)) => Ok(storage),
            Err(e) => Err(e),
        }
    }

    /// Reading back the bytes of a storage gives a storage with the same content, and
    /// reads all of the bytes.
    pub proof fn lemma_round_trip(&self)
        requires
            self.wf(),
        ensures
            decode_storage(self.encoding(), 0) == Ok::<(Seq<SlotView>, int), DecodeFailure>(
                (self@, self.encoding().len() as int),
            ),
    {
        let bytes = self.encoding();
        assert(bytes.subrange(0, bytes.len() as int) =~= bytes);
        self.lemma_round_trip_at(bytes, 0);
    }

    /// Reading back the bytes of a storage gives a storage with the same slots, and ends
    /// where the bytes of the storage end.
    pub proof fn lemma_round_trip_at(&self, bytes: Seq<u8>, pos: int)
        requires
            self.wf(),
            0 <= pos,
            pos + self.encoding().len() <= bytes.len(),
            bytes.subrange(pos, pos + self.encoding().len()) == self.encoding(),
        ensures
            decode_storage(bytes, pos) == Ok::<(Seq<SlotView>, int), DecodeFailure>(
                (self@, pos + self.encoding().len()),
            ),
    {
        let body = slots_body(self.slots@).len() as int;
        let all = bytes.subrange(pos, pos + self.encoding().len());
        assert(bytes[pos] == all[0]);
        assert(bytes.subrange(pos + 1, pos + 1 + body) =~= all.subrange(1, 1 + body));
        assert(all.subrange(1, 1 + body) =~= slots_body(self.slots@));
        lemma_decode_slots_of_bytes(bytes, pos + 1, self.slots@);
    }
}

} // verus!
