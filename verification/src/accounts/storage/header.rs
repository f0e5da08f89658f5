//! The header of an account's storage: for each slot its type and the word that it shows.

use crate::accounts::storage::slot::{decode_slot_type, StorageSlotType};
use crate::accounts::storage::{projection, AccountStorage};
use crate::codec::{
    canonical_ints, decode_u8, decode_word, lemma_decode_word_of_bytes, lemma_word_bytes_len,
    read_u8, read_word, word_bytes, write_u8, write_word, DecodeFailure, DeserializationError,
};
use crate::errors::AccountError;
use crate::felt::{word_eq, word_ints, Word};
use vstd::prelude::*;
use vstd::std_specs::cmp::PartialEqSpecImpl;
use vstd::std_specs::convert::FromSpecImpl;

verus! {

/// The largest number of slots that an account's storage can have.
pub const MAX_NUM_STORAGE_SLOTS: usize = 255;

/// The header of one slot: its type and the integers of the word that it shows.
pub type SlotHeader = (StorageSlotType, Seq<u64>);

/// The headers that a list of pairs of type and word stands for.
pub open spec fn headers_of(slots: Seq<(StorageSlotType, Word)>) -> Seq<SlotHeader> {
    Seq::new(slots.len(), |i: int| (slots[i].0, word_ints(slots[i].1)))
}

/// The 33 bytes of a slot header: the tag of the type, then the word.
pub open spec fn slot_header_bytes(header: SlotHeader) -> Seq<u8> {
    seq![header.0.tag()] + word_bytes(header.1)
}

/// The bytes of the slot headers of a list, in order.
pub open spec fn slot_headers_body(headers: Seq<SlotHeader>) -> Seq<u8>
    decreases headers.len(),
{
    if headers.len() == 0 {
        Seq::empty()
    } else {
        slot_headers_body(headers.drop_last()) + slot_header_bytes(headers.last())
    }
}

/// The bytes of a storage header: one byte for the number of slots, then each slot header.
pub open spec fn header_bytes(headers: Seq<SlotHeader>) -> Seq<u8> {
    seq![headers.len() as u8] + slot_headers_body(headers)
}

/// What reading a slot header at `pos` gives.
pub open spec fn decode_slot_header(bytes: Seq<u8>, pos: int) -> Result<
    (SlotHeader, int),
    DecodeFailure,
> {
    match decode_slot_type(bytes, pos) {
        Err(failure) => Err(failure),
        Ok((slot_type, mid)) => match decode_word(bytes, mid, false) {
            Err(failure) => Err(failure),
            Ok((ints, next)) => Ok(((slot_type, ints), next)),
        },
    }
}

/// What reading `n` slot headers at `pos` gives; the first that fails decides the error.
pub open spec fn decode_slot_headers(bytes: Seq<u8>, pos: int, n: nat) -> Result<
    (Seq<SlotHeader>, int),
    DecodeFailure,
>
    decreases n,
{
    if n == 0 {
        Ok((Seq::empty(), pos))
    } else {
        match decode_slot_headers(bytes, pos, (n - 1) as nat) {
            Err(failure) => Err(failure),
            Ok((headers, mid)) => match decode_slot_header(bytes, mid) {
                Err(failure) => Err(failure),
                Ok((header, next)) => Ok((headers.push(header), next)),
            },
        }
    }
}

/// What reading a storage header at `pos` gives: the number of slots in one byte, then as
/// many slot headers.
pub open spec fn decode_header(bytes: Seq<u8>, pos: int) -> Result<
    (Seq<SlotHeader>, int),
    DecodeFailure,
> {
    match decode_u8(bytes, pos) {
        Err(failure) => Err(failure),
        Ok((n, start)) => decode_slot_headers(bytes, start, n as nat),
    }
}

/// The index that an out-of-bounds error reports: the index, or 255 where it is larger.
pub open spec fn reported_index(index: usize) -> u8 {
    if index > 255 {
        255
    } else {
        index as u8
    }
}

/// A list of `n` slot headers takes `33 * n` bytes.
pub proof fn lemma_slot_headers_body_len(headers: Seq<SlotHeader>)
    ensures
        slot_headers_body(headers).len() == 33 * headers.len(),
    decreases headers.len(),
{
    if headers.len() > 0 {
        lemma_slot_headers_body_len(headers.drop_last());
        lemma_word_bytes_len(headers.last().1);
    }
}

/// Once a slot header fails, reading more of them fails in the same way.
pub proof fn lemma_decode_slot_headers_stops(bytes: Seq<u8>, pos: int, i: nat, n: nat)
    requires
        i < n,
        decode_slot_headers(bytes, pos, i) is Ok,
        decode_slot_header(bytes, decode_slot_headers(bytes, pos, i)->Ok_0.1) is Err,
    ensures
        decode_slot_headers(bytes, pos, n) == Err::<(Seq<SlotHeader>, int), DecodeFailure>(
            decode_slot_header(bytes, decode_slot_headers(bytes, pos, i)->Ok_0.1)->Err_0,
        ),
    decreases n,
{
    if n > i + 1 {
        lemma_decode_slot_headers_stops(bytes, pos, i, (n - 1) as nat);
    }
}

/// Reading back the bytes of a list of slot headers of canonical words gives the list.
pub proof fn lemma_decode_slot_headers_of_bytes(bytes: Seq<u8>, pos: int, headers: Seq<SlotHeader>)
    requires
        0 <= pos,
        pos + 33 * headers.len() <= bytes.len(),
        bytes.subrange(pos, pos + 33 * headers.len()) == slot_headers_body(headers),
        forall|i: int| 0 <= i < headers.len() ==> canonical_ints((#[trigger] headers[i]).1),
    ensures
        decode_slot_headers(bytes, pos, headers.len()) == Ok::<
            (Seq<SlotHeader>, int),
            DecodeFailure,
        >((headers, pos + 33 * headers.len())),
    decreases headers.len(),
{
    let n = headers.len() as int;
    if n > 0 {
        let front = headers.drop_last();
        let last = headers.last();
        let mid = pos + 33 * (n - 1);
        lemma_slot_headers_body_len(front);
        lemma_slot_headers_body_len(headers);
        lemma_word_bytes_len(last.1);
        let all = bytes.subrange(pos, pos + 33 * n);
        assert(bytes.subrange(pos, mid) =~= all.subrange(0, 33 * (n - 1)));
        assert(all.subrange(0, 33 * (n - 1)) =~= slot_headers_body(front));
        lemma_decode_slot_headers_of_bytes(bytes, pos, front);
        assert(bytes[mid] == all[33 * (n - 1)]);
        assert(all[33 * (n - 1)] == last.0.tag());
        assert(bytes.subrange(mid + 1, mid + 33) =~= all.subrange(33 * (n - 1) + 1, 33 * n));
        assert(all.subrange(33 * (n - 1) + 1, 33 * n) =~= word_bytes(last.1));
        assert(canonical_ints(headers[n - 1].1));
        lemma_decode_word_of_bytes(bytes, mid + 1, last.1, false);
        assert(front.push(last) =~= headers);
    } else {
        assert(headers =~= Seq::empty());
    }
}

/// The header of an account's storage: the type and the shown word of each slot, in the
/// order of the slots. It has at most 255 slots.
#[derive(Debug, Eq)]
pub struct AccountStorageHeader {
    slots: Vec<(StorageSlotType, Word)>,
}

impl PartialEqSpecImpl for AccountStorageHeader {
    open spec fn obeys_eq_spec() -> bool {
        true
    }

    open spec fn eq_spec(&self, other: &AccountStorageHeader) -> bool {
        self@ == other@
    }
}

impl PartialEq for AccountStorageHeader {
    /// Two headers are equal if and only if they have the same slots in the same order.
    fn eq(&self, other: &AccountStorageHeader) -> (equal: bool)
        ensures
            equal == (self@ == other@),
    {
        if self.slots.len() != other.slots.len() {
            proof {
                assert(self@.len() != other@.len());
            }
            return false;
        }
        let mut i: usize = 0;
        while i < self.slots.len()
            invariant
                i <= self.slots.len(),
                self.slots.len() == other.slots.len(),
                forall|k: int| 0 <= k < i ==> self@[k] == other@[k],
            decreases self.slots.len() - i,
        {
            let same = self.slots[i].0 == other.slots[i].0 && word_eq(
                &self.slots[i].1,
                &other.slots[i].1,
            );
            if !same {
                proof {
                    assert(self@[i as int] != other@[i as int]);
                }
                return false;
            }
            i += 1;
        }
        proof {
            assert(self@ =~= other@);
        }
        true
    }
}

impl View for AccountStorageHeader {
    type V = Seq<SlotHeader>;

    closed spec fn view(&self) -> Seq<SlotHeader> {
        headers_of(self.slots@)
    }
}

impl Clone for AccountStorageHeader {
    fn clone(&self) -> (copy: AccountStorageHeader)
        ensures
            copy@ == self@,
    {
        proof {
            use_type_invariant(self);
        }
        let mut slots: Vec<(StorageSlotType, Word)> = Vec::new();
        let mut i: usize = 0;
        while i < self.slots.len()
            invariant
                i <= self.slots.len(),
                slots@ == self.slots@.take(i as int),
            decreases self.slots.len() - i,
        {
            slots.push(self.slots[i]);
            proof {
                assert(slots@ =~= self.slots@.take(i + 1));
            }
            i += 1;
        }
        proof {
            assert(self.slots@.take(i as int) =~= self.slots@);
        }
        AccountStorageHeader { slots }
    }
}

impl AccountStorageHeader {
    /// A header never has more than 255 slots.
    #[verifier::type_invariant]
    pub closed spec fn bounded(&self) -> bool {
        self.slots.len() <= MAX_NUM_STORAGE_SLOTS
    }

    /// Whether the header has at most 255 slots, each with a word of canonical elements.
    /// Every header in executable code does.
    pub open spec fn wf(&self) -> bool {
        &&& self@.len() <= MAX_NUM_STORAGE_SLOTS
        &&& forall|i: int| 0 <= i < self@.len() ==> canonical_ints((#[trigger] self@[i]).1)
    }

    /// The bytes of the header.
    pub open spec fn encoding(&self) -> Seq<u8> {
        header_bytes(self@)
    }

    /// The header of the slots given. There may be at most 255 of them.
    pub fn new(slots: Vec<(StorageSlotType, Word)>) -> (header: AccountStorageHeader)
        requires
            slots.len() <= MAX_NUM_STORAGE_SLOTS,
        ensures
            header@ == headers_of(slots@),
    {
        AccountStorageHeader { slots }
    }

    /// The slot headers, in order.
    pub fn slots(&self) -> (slots: &Vec<(StorageSlotType, Word)>)
        ensures
            headers_of(slots@) == self@,
            slots.len() <= MAX_NUM_STORAGE_SLOTS,
    {
        proof {
            use_type_invariant(self);
        }
        &self.slots
    }

    /// The number of slots.
    pub fn num_slots(&self) -> (n: usize)
        ensures
            n == self@.len(),
            n <= MAX_NUM_STORAGE_SLOTS,
    {
        proof {
            use_type_invariant(self);
        }
        self.slots.len()
    }

    /// The header of the slot at `index`.
    ///
    /// Fails if and only if `index` is not below the number of slots; the error carries
    /// that number and the index, the index no larger than 255.
    pub fn slot(&self, index: usize) -> (r: Result<&(StorageSlotType, Word), AccountError>)
        ensures
            index < self@.len() ==> (r matches Ok(slot) && (slot.0, word_ints(slot.1))
                == self@[index as int]),
            index >= self@.len() ==> r == Err::<&(StorageSlotType, Word), AccountError>(
                AccountError::StorageIndexOutOfBounds {
                    max: self@.len() as u8,
                    actual: reported_index(index),
                },
            ),
    {
        proof {
            use_type_invariant(self);
        }
        if index < self.slots.len() {
            Ok(&self.slots[index])
        } else {
            let actual: u8 = if index > 255 {
                255
            } else {
                index as u8
            };
            Err(AccountError::StorageIndexOutOfBounds { max: self.slots.len() as u8, actual })
        }
    }

    /// Appends the bytes of the header.
    pub fn write_into(&self, target: &mut Vec<u8>)
        ensures
            final(target)@ == old(target)@ + self.encoding(),
    {
        proof {
            use_type_invariant(self);
        }
        let ghost headers = self@;
        write_u8(target, self.slots.len() as u8);
        let mut i: usize = 0;
        while i < self.slots.len()
            invariant
                i <= self.slots.len(),
                headers == headers_of(self.slots@),
                target@ == old(target)@ + seq![headers.len() as u8] + slot_headers_body(
                    headers.take(i as int),
                ),
            decreases self.slots.len() - i,
        {
            proof {
                let next = headers.take(i + 1);
                assert(next.drop_last() == headers.take(i as int));
                assert(next.last() == headers[i as int]);
            }
            self.slots[i].0.write_into(target);
            write_word(target, &self.slots[i].1);
            i += 1;
        }
        proof {
            assert(headers.take(i as int) == headers);
            assert(target@ =~= old(target)@ + header_bytes(headers));
        }
    }

    /// The bytes of the header.
    pub fn to_bytes(&self) -> (bytes: Vec<u8>)
        ensures
            bytes@ == self.encoding(),
    {
        let mut bytes: Vec<u8> = Vec::new();
        self.write_into(&mut bytes);
        bytes
    }

    /// Reads a header at `pos`, and returns it with the position after it.
    ///
    /// Fails where the input ends early, where a tag is neither 0 nor 1, and where an
    /// element is not canonical.
    pub fn read_from(bytes: &[u8], pos: usize) -> (r: Result<
        (AccountStorageHeader, usize),
        DeserializationError,
    >)
        ensures
            match decode_header(bytes@, pos as int) {
                Ok((headers, next)) => r matches Ok((header, end)) && header@ == headers && end
                    == next && header.wf(),
                Err(failure) => r matches Err(e) && e@ == failure,
            },
    {
        let (n, start) = match read_u8(bytes, pos) {
            Err(e) => {
                return Err(e);
            },
            Ok(read) => read,
        };
        let mut slots: Vec<(StorageSlotType, Word)> = Vec::new();
        let mut at: usize = start;
        let mut i: usize = 0;
        proof {
            assert(headers_of(slots@) =~= Seq::empty());
        }
        while i < n as usize
            invariant
                i <= n,
                slots.len() == i,
                decode_u8(bytes@, pos as int) matches Ok((count, first)) && count == n && first
                    == start,
                decode_slot_headers(bytes@, start as int, i as nat) matches Ok((headers, next))
                    && headers == headers_of(slots@) && next == at,
                forall|k: int|
                    0 <= k < slots.len() ==> canonical_ints(
                        (#[trigger] headers_of(slots@)[k]).1,
                    ),
            decreases n - i,
        {
            let ghost before = headers_of(slots@);
            let (slot_type, mid) = match StorageSlotType::read_from(bytes, at) {
                Err(e) => {
                    proof {
                        lemma_decode_slot_headers_stops(bytes@, start as int, i as nat, n as nat);
                    }
                    return Err(e);
                },
                Ok(read) => read,
            };
            let (word, next) = match read_word(bytes, mid) {
                Err(e) => {
                    proof {
                        lemma_decode_slot_headers_stops(bytes@, start as int, i as nat, n as nat);
                    }
                    return Err(e);
                },
                Ok(read) => read,
            };
            slots.push((slot_type, word));
            proof {
                assert(headers_of(slots@) =~= before.push((slot_type, word_ints(word))));
                assert(word_ints(word).len() == 4);
            }
            at = next;
            i += 1;
        }
        Ok((AccountStorageHeader::new(slots), at))
    }

    /// Reads a header from the start of `bytes`; bytes after it are left unread.
    pub fn read_from_bytes(bytes: &[u8]) -> (r: Result<AccountStorageHeader, DeserializationError>)
        ensures
            match decode_header(bytes@, 0) {
                Ok((headers, next)) => r matches Ok(header) && header@ == headers && header.wf(),
                Err(failure) => r matches Err(e) && e@ == failure,
            },
    {
        match AccountStorageHeader::read_from(bytes, 0) {
            Ok((header, _)) => Ok(header),
            Err(e) => Err(e),
        }
    }

    /// Reading back the bytes of a header gives a header with the same content, and
    /// reads all of the bytes.
    pub proof fn lemma_round_trip(&self)
        requires
            self.wf(),
        ensures
            decode_header(self.encoding(), 0) == Ok::<(Seq<SlotHeader>, int), DecodeFailure>(
                (self@, self.encoding().len() as int),
            ),
    {
        let bytes = self.encoding();
        assert(bytes.subrange(0, bytes.len() as int) =~= bytes);
        self.lemma_round_trip_at(bytes, 0);
    }

    /// Reading back the bytes of a header gives a header with the same slots, and ends
    /// where the bytes of the header end.
    pub proof fn lemma_round_trip_at(&self, bytes: Seq<u8>, pos: int)
        requires
            self.wf(),
            0 <= pos,
            pos + self.encoding().len() <= bytes.len(),
            bytes.subrange(pos, pos + self.encoding().len()) == self.encoding(),
        ensures
            decode_header(bytes, pos) == Ok::<(Seq<SlotHeader>, int), DecodeFailure>(
                (self@, pos + self.encoding().len()),
            ),
    {
        let headers = self@;
        let n = headers.len() as int;
        let all = bytes.subrange(pos, pos + self.encoding().len());
        lemma_slot_headers_body_len(headers);
        assert(bytes[pos] == all[0]);
        assert(bytes.subrange(pos + 1, pos + 1 + 33 * n) =~= all.subrange(1, 1 + 33 * n));
        assert(all.subrange(1, 1 + 33 * n) =~= slot_headers_body(headers));
        lemma_decode_slot_headers_of_bytes(bytes, pos + 1, headers);
    }
}

impl FromSpecImpl<AccountStorage> for AccountStorageHeader {
    open spec fn obeys_from_spec() -> bool {
        false
    }

    open spec fn from_spec(storage: AccountStorage) -> AccountStorageHeader {
        arbitrary()
    }
}

impl From<AccountStorage> for AccountStorageHeader {
    /// The header of a storage: of each slot, in order, its type and the word that it shows.
    fn from(storage: AccountStorage) -> (header: AccountStorageHeader)
        ensures
            header@ == projection(storage@),
    {
        storage.get_header()
    }
}

} // verus!
