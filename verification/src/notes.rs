//! Notes, as far as the kernel's errors speak of them.

use crate::felt::{felt_ints, word_eq, word_ints, Word};
use crate::text::{bracketed, push_bracketed, push_text};
use vstd::prelude::*;
use vstd::std_specs::cmp::PartialEqSpecImpl;

verus! {

/// The metadata of a note, held as the word that stands for it in the kernel.
#[derive(Debug, Clone, Copy, Eq)]
pub struct NoteMetadata {
    word: Word,
}

impl View for NoteMetadata {
    type V = Seq<u64>;

    /// The integers of the word that stands for the metadata.
    closed spec fn view(&self) -> Seq<u64> {
        word_ints(self.word)
    }
}

impl PartialEqSpecImpl for NoteMetadata {
    open spec fn obeys_eq_spec() -> bool {
        true
    }

    open spec fn eq_spec(&self, other: &NoteMetadata) -> bool {
        self@ == other@
    }
}

impl PartialEq for NoteMetadata {
    /// Two metadata are equal if and only if their words are.
    fn eq(&self, other: &NoteMetadata) -> (equal: bool)
        ensures
            equal == (self@ == other@),
    {
        word_eq(&self.word, &other.word)
    }
}

impl NoteMetadata {
    /// The metadata that `word` stands for.
    pub fn new(word: Word) -> (metadata: NoteMetadata)
        ensures
            metadata@ == word_ints(word),
    {
        NoteMetadata { word }
    }

    /// The word that stands for the metadata.
    pub fn to_word(&self) -> (word: Word)
        ensures
            word_ints(word) == self@,
    {
        self.word
    }

    /// The text of the metadata: the numerals of its elements between brackets, after the
    /// name of the type.
    pub open spec fn debug_text(&self) -> Seq<char> {
        "NoteMetadata("@ + bracketed(self@) + ")"@
    }

    /// The metadata as text.
    pub fn to_debug_string(&self) -> (text: String)
        ensures
            text@ == self.debug_text(),
    {
        let mut text = String::new();
        push_text(&mut text, "NoteMetadata(");
        push_bracketed(&mut text, self.word.as_slice());
        push_text(&mut text, ")");
        proof {
            assert(felt_ints(self.word@) =~= self@);
            assert(text@ =~= self.debug_text());
        }
        text
    }
}

} // verus!
