//! Storage maps: key-value stores that a slot refers to by the root of a sparse Merkle tree.

use crate::codec::{
    canonical_ints, decode_usize, decode_word, lemma_decode_usize_of_bytes,
    lemma_decode_word_of_bytes, lemma_vint_bytes_len, lemma_word_bytes_len, read_digest_word,
    read_usize, read_word, usize_encoded_len, vint_bytes, vint_len, word_bytes, write_usize,
    write_word, DecodeFailure, DeserializationError,
};
use crate::digest::Digest;
use crate::felt::{word_eq, word_ints, Word};
use crate::merkle::{
    distinct_keys, entries_after_insert, entries_of, no_entries, no_pairs, pairs_ints,
    smt_entries, smt_entry_list, smt_insert, smt_new, smt_pairs, smt_root,
    smt_root_word, smt_with_entries, value_at, well_formed,
};
use crate::text::{decimal, push_decimal, push_text};
use miden_core::crypto::merkle::Smt;
use vstd::pervasive::unreached;
use vstd::prelude::*;
use vstd::std_specs::cmp::PartialEqSpecImpl;

verus! {

/// The 64 bytes of a pair: its key, then its value.
pub open spec fn pair_bytes(pair: (Seq<u64>, Seq<u64>)) -> Seq<u8> {
    word_bytes(pair.0) + word_bytes(pair.1)
}

/// The bytes of the pairs of a list, in order.
pub open spec fn pairs_body(pairs: Seq<(Seq<u64>, Seq<u64>)>) -> Seq<u8>
    decreases pairs.len(),
{
    if pairs.len() == 0 {
        Seq::empty()
    } else {
        pairs_body(pairs.drop_last()) + pair_bytes(pairs.last())
    }
}

/// The bytes of a list of pairs: their number, then the pairs.
pub open spec fn pairs_bytes(pairs: Seq<(Seq<u64>, Seq<u64>)>) -> Seq<u8> {
    vint_bytes(pairs.len()) + pairs_body(pairs)
}

/// What reading a pair at `pos` gives: a key, read as a digest, and a value, read as a word.
pub open spec fn decode_pair(bytes: Seq<u8>, pos: int) -> Result<
    ((Seq<u64>, Seq<u64>), int),
    DecodeFailure,
> {
    match decode_word(bytes, pos, true) {
        Err(failure) => Err(failure),
        Ok((key, mid)) => match decode_word(bytes, mid, false) {
            Err(failure) => Err(failure),
            Ok((value, next)) => Ok(((key, value), next)),
        },
    }
}

/// What reading `n` pairs at `pos` gives; the first pair that fails decides the error.
pub open spec fn decode_pairs(bytes: Seq<u8>, pos: int, n: nat) -> Result<
    (Seq<(Seq<u64>, Seq<u64>)>, int),
    DecodeFailure,
>
    decreases n,
{
    if n == 0 {
        Ok((Seq::empty(), pos))
    } else {
        match decode_pairs(bytes, pos, (n - 1) as nat) {
            Err(failure) => Err(failure),
            Ok((pairs, mid)) => match decode_pair(bytes, mid) {
                Err(failure) => Err(failure),
                Ok((pair, next)) => Ok((pairs.push(pair), next)),
            },
        }
    }
}

/// Whether the key of the pair at `j` occurs before `j`.
pub open spec fn repeats(pairs: Seq<(Seq<u64>, Seq<u64>)>, j: int) -> bool {
    exists|i: int| 0 <= i < j && pairs[i].0 == pairs[j].0
}

/// Whether `j` is the first position whose key occurs before it.
pub open spec fn is_first_repeat(pairs: Seq<(Seq<u64>, Seq<u64>)>, j: int) -> bool {
    &&& 0 <= j < pairs.len()
    &&& repeats(pairs, j)
    &&& forall|k: int| 0 <= k < j ==> !repeats(pairs, k)
}

/// The first position whose key occurs before it.
pub open spec fn first_repeat(pairs: Seq<(Seq<u64>, Seq<u64>)>) -> int {
    choose|j: int| is_first_repeat(pairs, j)
}

/// The text of the error for a list in which a key occurs twice: it names the leaf of the
/// first key that repeats, which is the key's last element.
pub open spec fn duplicate_message(pairs: Seq<(Seq<u64>, Seq<u64>)>) -> Seq<char> {
    "multiple values provided for key "@ + decimal(pairs[first_repeat(pairs)].0[3] as nat)
}

/// What reading a map at `pos` gives: the number of pairs, the pairs, and from them the
/// entries of the map, unless a key occurs twice.
pub open spec fn decode_map(bytes: Seq<u8>, pos: int) -> Result<
    (Map<Seq<u64>, Seq<u64>>, int),
    DecodeFailure,
> {
    match decode_usize(bytes, pos) {
        Err(failure) => Err(failure),
        Ok((n, start)) => match decode_pairs(bytes, start, n as nat) {
            Err(failure) => Err(failure),
            Ok((pairs, next)) => if distinct_keys(pairs) {
                Ok((entries_of(pairs), next))
            } else {
                Err(DecodeFailure::InvalidValue(duplicate_message(pairs)))
            },
        },
    }
}

/// A list of `n` pairs takes `64 * n` bytes.
pub proof fn lemma_pairs_body_len(pairs: Seq<(Seq<u64>, Seq<u64>)>)
    ensures
        pairs_body(pairs).len() == 64 * pairs.len(),
    decreases pairs.len(),
{
    if pairs.len() > 0 {
        lemma_pairs_body_len(pairs.drop_last());
        lemma_word_bytes_len(pairs.last().0);
        lemma_word_bytes_len(pairs.last().1);
    }
}

/// Once a pair fails, reading more pairs fails in the same way.
pub proof fn lemma_decode_pairs_stops(bytes: Seq<u8>, pos: int, i: nat, n: nat)
    requires
        i < n,
        decode_pairs(bytes, pos, i) is Ok,
        decode_pair(bytes, decode_pairs(bytes, pos, i)->Ok_0.1) is Err,
    ensures
        decode_pairs(bytes, pos, n) == Err::<(Seq<(Seq<u64>, Seq<u64>)>, int), DecodeFailure>(
            decode_pair(bytes, decode_pairs(bytes, pos, i)->Ok_0.1)->Err_0,
        ),
    decreases n,
{
    if n > i + 1 {
        lemma_decode_pairs_stops(bytes, pos, i, (n - 1) as nat);
    }
}

/// Reading back the bytes of a list of pairs of canonical words gives the list.
pub proof fn lemma_decode_pairs_of_bytes(
    bytes: Seq<u8>,
    pos: int,
    pairs: Seq<(Seq<u64>, Seq<u64>)>,
)
    requires
        0 <= pos,
        pos + 64 * pairs.len() <= bytes.len(),
        bytes.subrange(pos, pos + 64 * pairs.len()) == pairs_body(pairs),
        forall|i: int|
            0 <= i < pairs.len() ==> canonical_ints((#[trigger] pairs[i]).0) && canonical_ints(pairs[i].1),
    ensures
        decode_pairs(bytes, pos, pairs.len()) == Ok::<
            (Seq<(Seq<u64>, Seq<u64>)>, int),
            DecodeFailure,
        >((pairs, pos + 64 * pairs.len())),
    decreases pairs.len(),
{
    let n = pairs.len() as int;
    if n > 0 {
        let front = pairs.drop_last();
        let last = pairs.last();
        let mid = pos + 64 * (n - 1);
        lemma_pairs_body_len(front);
        lemma_pairs_body_len(pairs);
        lemma_word_bytes_len(last.0);
        lemma_word_bytes_len(last.1);
        let all = bytes.subrange(pos, pos + 64 * n);
        assert(bytes.subrange(pos, mid) =~= all.subrange(0, 64 * (n - 1)));
        assert(all.subrange(0, 64 * (n - 1)) =~= pairs_body(front));
        lemma_decode_pairs_of_bytes(bytes, pos, front);
        assert(bytes.subrange(mid, mid + 32) =~= all.subrange(64 * (n - 1), 64 * (n - 1) + 32));
        assert(all.subrange(64 * (n - 1), 64 * (n - 1) + 32) =~= word_bytes(last.0));
        assert(bytes.subrange(mid + 32, mid + 64) =~= all.subrange(64 * (n - 1) + 32, 64 * n));
        assert(all.subrange(64 * (n - 1) + 32, 64 * n) =~= word_bytes(last.1));
        assert(canonical_ints(pairs[n - 1].0) && canonical_ints(pairs[n - 1].1));
        lemma_decode_word_of_bytes(bytes, mid, last.0, true);
        lemma_decode_word_of_bytes(bytes, mid + 32, last.1, false);
        assert(front.push(last) =~= pairs);
    } else {
        assert(pairs =~= Seq::empty());
    }
}

/// A key-value store whose commitment is the root of a sparse Merkle tree of depth 64.
#[derive(Debug, Eq)]
pub struct StorageMap {
    map: Smt,
}

impl PartialEqSpecImpl for StorageMap {
    open spec fn obeys_eq_spec() -> bool {
        false
    }

    open spec fn eq_spec(&self, other: &StorageMap) -> bool {
        self@ == other@
    }
}

impl PartialEq for StorageMap {
    /// The comparison of the two trees. Maps that compare equal have the same entries.
    fn eq(&self, other: &StorageMap) -> (equal: bool)
        ensures
            equal ==> self@ == other@,
    {
        self.map == other.map
    }
}

impl Clone for StorageMap {
    fn clone(&self) -> (copy: StorageMap)
        ensures
            copy@ == self@,
            copy.pairs() == self.pairs(),
    {
        proof {
            use_type_invariant(self);
        }
        StorageMap { map: self.map.clone() }
    }
}

impl View for StorageMap {
    type V = Map<Seq<u64>, Seq<u64>>;

    /// The entries of the map: each key with its value, both as the integers of a word.
    closed spec fn view(&self) -> Map<Seq<u64>, Seq<u64>> {
        smt_entries(self.map)
    }
}

impl StorageMap {
    /// The pairs of the map in the order in which they are written out.
    pub closed spec fn pairs(&self) -> Seq<(Seq<u64>, Seq<u64>)> {
        smt_pairs(self.map)
    }

    /// Every map in executable code lists exactly its entries, each once, as canonical
    /// words, with no empty value.
    #[verifier::type_invariant]
    pub closed spec fn wf(&self) -> bool {
        well_formed(self.pairs(), self@)
    }

    /// The root of the map: a function of its entries.
    pub open spec fn root_ints(&self) -> Seq<u64> {
        smt_root(self@)
    }

    /// The bytes of the map: the number of its pairs, then each pair.
    pub open spec fn encoding(&self) -> Seq<u8> {
        pairs_bytes(self.pairs())
    }

    /// A map without entries.
    pub fn new() -> (map: StorageMap)
        ensures
            map@ == no_entries(),
            map.pairs() == no_pairs(),
            map.wf(),
    {
        let smt = smt_new();
        proof {
            assert(entries_of(no_pairs()) =~= no_entries());
        }
        StorageMap { map: smt }
    }

    /// The root of the map.
    pub fn root(&self) -> (root: Digest)
        ensures
            root@ == self.root_ints(),
    {
        Digest::new(smt_root_word(&self.map))
    }

    /// Stores `value` under `key` and returns the value that the key had; the empty word
    /// stands for no value, both ways.
    pub fn insert(&mut self, key: Digest, value: Word) -> (previous: Word)
        ensures
            final(self)@ == entries_after_insert(old(self)@, key@, word_ints(value)),
            word_ints(previous) == value_at(old(self)@, key@),
            final(self).wf(),
    {
        smt_insert(&mut self.map, key.to_word(), value)
    }

    /// The pairs of the map, in the order in which they are written out.
    pub fn entries(&self) -> (list: Vec<(Word, Word)>)
        ensures
            pairs_ints(list@) == self.pairs(),
    {
        smt_entry_list(&self.map)
    }

    /// Appends the bytes of the map: the number of its pairs, then each pair, key first.
    pub fn write_into(&self, target: &mut Vec<u8>)
        ensures
            final(target)@ == old(target)@ + self.encoding(),
    {
        let list = smt_entry_list(&self.map);
        let ghost pairs = pairs_ints(list@);
        write_usize(target, list.len());
        let mut i: usize = 0;
        while i < list.len()
            invariant
                i <= list.len(),
                pairs == pairs_ints(list@),
                target@ == old(target)@ + vint_bytes(list.len() as nat) + pairs_body(
                    pairs.take(i as int),
                ),
            decreases list.len() - i,
        {
            proof {
                let next = pairs.take(i + 1);
                assert(next.drop_last() == pairs.take(i as int));
                assert(next.last() == pairs[i as int]);
            }
            write_word(target, &list[i].0);
            write_word(target, &list[i].1);
            i += 1;
        }
        proof {
            assert(pairs.take(i as int) == pairs);
            assert(target@ =~= old(target)@ + pairs_bytes(pairs));
        }
    }

    /// The bytes of the map.
    pub fn to_bytes(&self) -> (bytes: Vec<u8>)
        ensures
            bytes@ == self.encoding(),
    {
        let mut bytes: Vec<u8> = Vec::new();
        self.write_into(&mut bytes);
        bytes
    }

    /// The number of bytes that the map takes, or the largest number the machine holds
    /// where that is less.
    pub fn get_size_hint(&self) -> (size: usize)
        ensures
            size == if self.encoding().len() <= usize::MAX {
                self.encoding().len()
            } else {
                usize::MAX as nat
            },
    {
        let list = smt_entry_list(&self.map);
        let n = list.len();
        proof {
            lemma_vint_bytes_len(n as nat);
            lemma_pairs_body_len(self.pairs());
        }
        let total: u128 = usize_encoded_len(n) as u128 + 64 * (n as u128);
        if total > usize::MAX as u128 {
            usize::MAX
        } else {
            total as usize
        }
    }

    /// Reads a map at `pos`, and returns it with the position after it.
    ///
    /// Fails where the input ends early, where an element is not canonical, and where a key
    /// occurs twice.
    pub fn read_from(bytes: &[u8], pos: usize) -> (r: Result<
        (StorageMap, usize),
        DeserializationError,
    >)
        ensures
            match decode_map(bytes@, pos as int) {
                Ok((entries, next)) => r matches Ok((map, end)) && map@ == entries && end == next
                    && map.wf(),
                Err(failure) => r matches Err(e) && e@ == failure,
            },
    {
        let (n, start) = match read_usize(bytes, pos) {
            Err(e) => {
                return Err(e);
            },
            Ok(read) => read,
        };
        let mut list: Vec<(Word, Word)> = Vec::new();
        let mut at: usize = start;
        let mut i: usize = 0;
        proof {
            assert(pairs_ints(list@) =~= Seq::empty());
        }
        while i < n
            invariant
                i <= n,
                decode_usize(bytes@, pos as int) matches Ok((count, first)) && count == n && first
                    == start,
                decode_pairs(bytes@, start as int, i as nat) matches Ok((pairs, next)) && pairs
                    == pairs_ints(list@) && next == at,
            decreases n - i,
        {
            let ghost before = pairs_ints(list@);
            let (key, mid) = match read_digest_word(bytes, at) {
                Err(e) => {
                    proof {
                        lemma_decode_pairs_stops(bytes@, start as int, i as nat, n as nat);
                    }
                    return Err(e);
                },
                Ok(read) => read,
            };
            let (value, next) = match read_word(bytes, mid) {
                Err(e) => {
                    proof {
                        lemma_decode_pairs_stops(bytes@, start as int, i as nat, n as nat);
                    }
                    return Err(e);
                },
                Ok(read) => read,
            };
            list.push((key, value));
            proof {
                assert(pairs_ints(list@) =~= before.push((word_ints(key), word_ints(value))));
            }
            at = next;
            i += 1;
        }
        match smt_with_entries(&list) {
            Ok(smt) => Ok((StorageMap { map: smt }, at)),
            Err(_) => {
                let j = first_repeat_of(&list);
                let mut text = String::new();
                push_text(&mut text, "multiple values provided for key ");
                push_decimal(&mut text, list[j].0[3].as_int());
                proof {
                    assert(text@ =~= duplicate_message(pairs_ints(list@)));
                }
                Err(DeserializationError::InvalidValue(text))
            },
        }
    }

    /// Reads a map from the start of `bytes`; bytes after it are left unread.
    pub fn read_from_bytes(bytes: &[u8]) -> (r: Result<StorageMap, DeserializationError>)
        ensures
            match decode_map(bytes@, 0) {
                Ok((entries, next)) => r matches Ok(map) && map@ == entries && map.wf(),
                Err(failure) => r matches Err(e) && e@ == failure,
            },
    {
        match StorageMap::read_from(bytes, 0) {
            Ok((map, _)) => Ok(map),
            Err(e) => Err(e),
        }
    }

    /// Reading back the bytes of a map gives a map with the same content, and
    /// reads all of the bytes.
    pub proof fn lemma_round_trip(&self)
        requires
            self.wf(),
            self.pairs().len() <= usize::MAX,
        ensures
            decode_map(self.encoding(), 0) == Ok::<(Map<Seq<u64>, Seq<u64>>, int), DecodeFailure>(
                (self@, self.encoding().len() as int),
            ),
    {
        let bytes = self.encoding();
        assert(bytes.subrange(0, bytes.len() as int) =~= bytes);
        self.lemma_round_trip_at(bytes, 0);
    }

    /// Reading back the bytes of a map gives a map with the same entries, and ends where
    /// the bytes of the map end.
    pub proof fn lemma_round_trip_at(&self, bytes: Seq<u8>, pos: int)
        requires
            self.wf(),
            self.pairs().len() <= usize::MAX,
            0 <= pos,
            pos + self.encoding().len() <= bytes.len(),
            bytes.subrange(pos, pos + self.encoding().len()) == self.encoding(),
        ensures
            decode_map(bytes, pos) == Ok::<(Map<Seq<u64>, Seq<u64>>, int), DecodeFailure>(
                (self@, pos + self.encoding().len()),
            ),
    {
        let pairs = self.pairs();
        let n = pairs.len() as int;
        let head = vint_len(n as nat) as int;
        let all = bytes.subrange(pos, pos + self.encoding().len());
        lemma_vint_bytes_len(n as nat);
        lemma_pairs_body_len(pairs);
        assert(bytes.subrange(pos, pos + head) =~= all.subrange(0, head));
        assert(all.subrange(0, head) =~= vint_bytes(n as nat));
        lemma_decode_usize_of_bytes(bytes, pos, n as usize);
        assert(bytes.subrange(pos + head, pos + head + 64 * n) =~= all.subrange(
            head,
            head + 64 * n,
        ));
        assert(all.subrange(head, head + 64 * n) =~= pairs_body(pairs));
        lemma_decode_pairs_of_bytes(bytes, pos + head, pairs);
    }
}

/// The first position of `pairs` whose key occurs before it is the only one of its kind.
proof fn lemma_first_repeat_unique(pairs: Seq<(Seq<u64>, Seq<u64>)>, j: int)
    requires
        is_first_repeat(pairs, j),
    ensures
        first_repeat(pairs) == j,
{
    let c = first_repeat(pairs);
    assert(is_first_repeat(pairs, c));
    if c < j {
        assert(!repeats(pairs, c));
    } else if j < c {
        assert(!repeats(pairs, j));
    }
}

/// The first position of the list whose key occurs before it.
fn first_repeat_of(list: &Vec<(Word, Word)>) -> (j: usize)
    requires
        !distinct_keys(pairs_ints(list@)),
    ensures
        j < list.len(),
        j == first_repeat(pairs_ints(list@)),
{
    let ghost pairs = pairs_ints(list@);
    let mut j: usize = 0;
    while j < list.len()
        invariant
            j <= list.len(),
            pairs == pairs_ints(list@),
            forall|k: int| 0 <= k < j ==> !repeats(pairs, k),
        decreases list.len() - j,
    {
        let mut i: usize = 0;
        while i < j
            invariant
                i <= j < list.len(),
                pairs == pairs_ints(list@),
                forall|k: int| 0 <= k < j ==> !repeats(pairs, k),
                forall|m: int| 0 <= m < i ==> pairs[m].0 != pairs[j as int].0,
            decreases j - i,
        {
            if word_eq(&list[i].0, &list[j].0) {
                proof {
                    assert(pairs[i as int].0 == pairs[j as int].0);
                    assert(repeats(pairs, j as int));
                    lemma_first_repeat_unique(pairs, j as int);
                }
                return j;
            }
            i += 1;
        }
        j += 1;
    }
    proof {
        assert forall|a: int, b: int| 0 <= a < b < pairs.len() implies pairs[a].0
            != pairs[b].0 by {
            assert(!repeats(pairs, b));
        }
    }
    unreached()
}

} // verus!
