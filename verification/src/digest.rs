//! Digests: the commitments that bind an account's state.

use crate::codec::{word_bytes, write_word};
use crate::felt::{word_eq, word_ints, Word};
use crate::text::{hex_bytes, push_hex_bytes, push_text};
use crate::text::{bracketed, push_bracketed};
use vstd::prelude::*;
use vstd::std_specs::cmp::PartialEqSpecImpl;

verus! {

/// A commitment of four field elements.
#[derive(Debug, Clone, Copy, Eq)]
pub struct Digest {
    elements: Word,
}

impl PartialEqSpecImpl for Digest {
    open spec fn obeys_eq_spec() -> bool {
        true
    }

    open spec fn eq_spec(&self, other: &Digest) -> bool {
        self@ == other@
    }
}

impl PartialEq for Digest {
    /// Two digests are equal if and only if their elements are.
    fn eq(&self, other: &Digest) -> (equal: bool)
        ensures
            equal == (self@ == other@),
    {
        word_eq(&self.elements, &other.elements)
    }
}

impl View for Digest {
    type V = Seq<u64>;

    closed spec fn view(&self) -> Seq<u64> {
        word_ints(self.elements)
    }
}

impl Digest {
    /// The digest made of the four elements of `elements`.
    pub fn new(elements: Word) -> (digest: Digest)
        ensures
            digest@ == word_ints(elements),
    {
        Digest { elements }
    }

    /// The four elements of the digest.
    pub fn as_elements(&self) -> (elements: &Word)
        ensures
            word_ints(*elements) == self@,
    {
        &self.elements
    }

    /// The digest as a word.
    pub fn to_word(&self) -> (word: Word)
        ensures
            word_ints(word) == self@,
    {
        self.elements
    }

    /// The text of the digest: `0x` and the two hexadecimal digits of each of its 32 bytes.
    pub open spec fn hex(&self) -> Seq<char> {
        "0x"@ + hex_bytes(word_bytes(self@))
    }

    /// The text of the digest element by element: the numerals of its elements between
    /// brackets, after the name under which digests are printed.
    pub open spec fn debug_text(&self) -> Seq<char> {
        "RpoDigest("@ + bracketed(self@) + ")"@
    }

    /// The digest element by element, as text.
    pub fn to_debug_string(&self) -> (text: String)
        ensures
            text@ == self.debug_text(),
    {
        let mut text = String::new();
        push_text(&mut text, "RpoDigest(");
        push_bracketed(&mut text, self.elements.as_slice());
        push_text(&mut text, ")");
        proof {
            assert(crate::felt::felt_ints(self.elements@) =~= self@);
            assert(text@ =~= self.debug_text());
        }
        text
    }

    /// The digest in hexadecimal, with `0x` before it.
    pub fn to_hex(&self) -> (text: String)
        ensures
            text@ == self.hex(),
    {
        let mut bytes: Vec<u8> = Vec::new();
        write_word(&mut bytes, &self.elements);
        let mut text = String::new();
        push_text(&mut text, "0x");
        push_hex_bytes(&mut text, &bytes);
        proof {
            assert(bytes@ =~= word_bytes(self@));
        }
        text
    }
}

} // verus!
