//! The sparse Merkle tree behind a storage map, as far as this crate relies on it.
//!
//! The tree itself, its hashing and its root are the work of `miden_core`'s `Smt`. What
//! this module states of it is believed, not proved: the pairs that a tree holds after each
//! operation, and that its root depends on those pairs alone.

use crate::codec::canonical_ints;
use crate::felt::{empty_word_ints, word_ints, Felt, Word};
use miden_core::crypto::hash::RpoDigest;
use miden_core::crypto::merkle::{EmptySubtreeRoots, MerkleError, Smt, SMT_DEPTH};
use vstd::prelude::*;

verus! {

/// `miden_core::crypto::merkle::Smt`: a sparse Merkle tree of depth 64 from keys of four
/// field elements to values of four field elements. Nothing of its inside is visible here.
#[verifier::external_type_specification]
#[verifier::external_body]
pub struct ExSmt(Smt);

/// `miden_core::crypto::merkle::MerkleError`: why a tree could not be built. Nothing of its
/// inside is visible here.
#[verifier::external_type_specification]
#[verifier::external_body]
pub struct ExMerkleError(MerkleError);

/// The pairs that a tree holds, as a map from key to value; each a word given by the integers
/// of its elements. A key whose value is the empty word is not held.
pub uninterp spec fn smt_entries(smt: Smt) -> Map<Seq<u64>, Seq<u64>>;

/// The pairs that a tree holds, in the order in which it hands them out.
pub uninterp spec fn smt_pairs(smt: Smt) -> Seq<(Seq<u64>, Seq<u64>)>;

/// The root of a tree that holds `entries`.
pub uninterp spec fn smt_root(entries: Map<Seq<u64>, Seq<u64>>) -> Seq<u64>;

/// The contents of a tree that holds no pair.
pub open spec fn no_entries() -> Map<Seq<u64>, Seq<u64>> {
    Map::empty()
}

/// The list of no pair.
pub open spec fn no_pairs() -> Seq<(Seq<u64>, Seq<u64>)> {
    Seq::empty()
}

/// Whether no key occurs twice in `pairs`.
pub open spec fn distinct_keys(pairs: Seq<(Seq<u64>, Seq<u64>)>) -> bool {
    forall|i: int, j: int| 0 <= i < j < pairs.len() ==> pairs[i].0 != pairs[j].0
}

/// Whether `pairs` assign the value `v`, which is not the empty word, to the key `k`.
pub open spec fn assigns(pairs: Seq<(Seq<u64>, Seq<u64>)>, k: Seq<u64>, v: Seq<u64>) -> bool {
    v != empty_word_ints() && pairs.contains((k, v))
}

/// The map that a list of pairs stands for: each key with the value that the list assigns
/// to it. Meant for lists in which no key occurs twice.
pub open spec fn entries_of(pairs: Seq<(Seq<u64>, Seq<u64>)>) -> Map<Seq<u64>, Seq<u64>> {
    Map::new(
        |k: Seq<u64>| exists|v: Seq<u64>| assigns(pairs, k, v),
        |k: Seq<u64>| choose|v: Seq<u64>| assigns(pairs, k, v),
    )
}

/// What holds of the pairs of every tree: they are words, no value is the empty word, no key
/// occurs twice, and the list and the map hold the same pairs.
pub open spec fn well_formed(
    pairs: Seq<(Seq<u64>, Seq<u64>)>,
    entries: Map<Seq<u64>, Seq<u64>>,
) -> bool {
    &&& forall|i: int|
        0 <= i < pairs.len() ==> canonical_ints((#[trigger] pairs[i]).0) && canonical_ints(
            pairs[i].1,
        ) && pairs[i].1 != empty_word_ints()
    &&& distinct_keys(pairs)
    &&& entries == entries_of(pairs)
}

/// The entries after `value` was stored under `key`: storing the empty word removes the key.
pub open spec fn entries_after_insert(
    entries: Map<Seq<u64>, Seq<u64>>,
    key: Seq<u64>,
    value: Seq<u64>,
) -> Map<Seq<u64>, Seq<u64>> {
    if value == empty_word_ints() {
        entries.remove(key)
    } else {
        entries.insert(key, value)
    }
}

/// The value under `key`: the empty word where the key is not held.
pub open spec fn value_at(entries: Map<Seq<u64>, Seq<u64>>, key: Seq<u64>) -> Seq<u64> {
    if entries.dom().contains(key) {
        entries[key]
    } else {
        empty_word_ints()
    }
}

/// The integers of each word of a list of pairs.
pub open spec fn pairs_ints(list: Seq<(Word, Word)>) -> Seq<(Seq<u64>, Seq<u64>)> {
    Seq::new(list.len(), |i: int| (word_ints(list[i].0), word_ints(list[i].1)))
}

/// `Smt::new`: a tree that holds no pair.
#[verifier::external_body]
pub(crate) fn smt_new() -> (smt: Smt)
    ensures
        smt_entries(smt) == no_entries(),
        smt_pairs(smt) == no_pairs(),
{
    Smt::new()
}

/// `Smt::clone`: a tree that holds the same pairs, in the same order.
pub assume_specification[ <Smt as Clone>::clone ](smt: &Smt) -> (copy: Smt)
    ensures
        smt_entries(copy) == smt_entries(*smt),
        smt_pairs(copy) == smt_pairs(*smt),
;

/// `Smt::eq`: trees that compare equal hold the same pairs. Whether trees that hold the same
/// pairs always compare equal is not stated.
pub assume_specification[ <Smt as PartialEq>::eq ](a: &Smt, b: &Smt) -> (equal: bool)
    ensures
        equal ==> smt_entries(*a) == smt_entries(*b),
;

/// `Smt::root`: the root of the tree, which its pairs determine.
#[verifier::external_body]
pub(crate) fn smt_root_word(smt: &Smt) -> (root: Word)
    ensures
        word_ints(root) == smt_root(smt_entries(*smt)),
{
    let elements: [miden_core::Felt; 4] = smt.root().into();
    elements.map(|e| Felt::new(e.as_int()))
}

/// `EmptySubtreeRoots::entry` at the depth of the tree, for its root: the root of a tree
/// that holds no pair, which is also what `Smt::new` starts from.
#[verifier::external_body]
pub(crate) fn smt_empty_root() -> (root: Word)
    ensures
        word_ints(root) == smt_root(no_entries()),
{
    let elements: [miden_core::Felt; 4] = (*EmptySubtreeRoots::entry(SMT_DEPTH, 0)).into();
    elements.map(|e| Felt::new(e.as_int()))
}

/// `Smt::insert`: stores `value` under `key`, or removes the key where `value` is the empty
/// word, and returns the value that the key had.
#[verifier::external_body]
pub(crate) fn smt_insert(smt: &mut Smt, key: Word, value: Word) -> (previous: Word)
    ensures
        smt_entries(*final(smt)) == entries_after_insert(
            smt_entries(*old(smt)),
            word_ints(key),
            word_ints(value),
        ),
        well_formed(smt_pairs(*final(smt)), smt_entries(*final(smt))),
        word_ints(previous) == value_at(smt_entries(*old(smt)), word_ints(key)),
    no_unwind
{
    let key = RpoDigest::new(key.map(|e| miden_core::Felt::new(e.as_int())));
    let value = value.map(|e| miden_core::Felt::new(e.as_int()));
    smt.insert(key, value).map(|e| Felt::new(e.as_int()))
}

/// `Smt::entries`: the pairs of the tree, in the order in which it hands them out.
#[verifier::external_body]
pub(crate) fn smt_entry_list(smt: &Smt) -> (list: Vec<(Word, Word)>)
    ensures
        pairs_ints(list@) == smt_pairs(*smt),
{
    smt.entries()
        .map(|(key, value)| {
            let key: [miden_core::Felt; 4] = (*key).into();
            (key.map(|e| Felt::new(e.as_int())), value.map(|e| Felt::new(e.as_int())))
        })
        .collect()
}

/// `Smt::with_entries`: the tree that holds the pairs of `list`, but for those whose value is
/// the empty word; an error if and only if a key occurs twice in `list`.
#[verifier::external_body]
pub(crate) fn smt_with_entries(list: &Vec<(Word, Word)>) -> (r: Result<Smt, MerkleError>)
    ensures
        r is Ok <==> distinct_keys(pairs_ints(list@)),
        r matches Ok(smt) ==> smt_entries(smt) == entries_of(pairs_ints(list@)),
        r matches Ok(smt) ==> well_formed(smt_pairs(smt), smt_entries(smt)),
{
    Smt::with_entries(list.iter().map(|(key, value)| {
        let key = RpoDigest::new(key.map(|e| miden_core::Felt::new(e.as_int())));
        (key, value.map(|e| miden_core::Felt::new(e.as_int())))
    }))
}

} // verus!
