//! Errors of the account layer.

use crate::text::{decimal, push_decimal, push_text};
use vstd::prelude::*;
use vstd::std_specs::cmp::PartialEqSpecImpl;

verus! {

/// What can be wrong with an account's identifier, header or storage.
#[derive(Debug, Clone, Copy, PartialEq, Eq, Structural)]
pub enum AccountError {
    /// An identifier with fewer bits set than required: the required and the actual number.
    AccountIdTooFewOnes(u32, u32),
    /// Header data of the wrong length: the actual and the expected number of words.
    HeaderDataIncorrectLength(usize, usize),
    /// An identifier whose storage-mode bits stand for no storage mode.
    InvalidAccountStorageMode,
    /// An index at or beyond the number of storage slots.
    StorageIndexOutOfBounds { max: u8, actual: u8 },
    /// More storage slots than an account can have: their number.
    StorageTooManySlots(u64),
}

impl AccountError {
    /// The diagnostic text of the error: the variant's name with the values it carries.
    pub open spec fn message(&self) -> Seq<char> {
        match self {
            AccountError::AccountIdTooFewOnes(expected, actual) => "AccountIdTooFewOnes("@
                + decimal(*expected as nat) + ", "@ + decimal(*actual as nat) + ")"@,
            AccountError::HeaderDataIncorrectLength(actual, expected) =>
                "HeaderDataIncorrectLength("@ + decimal(*actual as nat) + ", "@ + decimal(
                    *expected as nat,
                ) + ")"@,
            AccountError::InvalidAccountStorageMode => "InvalidAccountStorageMode"@,
            AccountError::StorageIndexOutOfBounds { max, actual } =>
                "StorageIndexOutOfBounds { max: "@ + decimal(*max as nat) + ", actual: "@
                    + decimal(*actual as nat) + " }"@,
            AccountError::StorageTooManySlots(count) => "StorageTooManySlots("@ + decimal(
                *count as nat,
            ) + ")"@,
        }
    }

    /// The diagnostic text of the error.
    pub fn to_string(&self) -> (text: String)
        ensures
            text@ == self.message(),
    {
        let mut text = String::new();
        match self {
            AccountError::AccountIdTooFewOnes(expected, actual) => {
                push_text(&mut text, "AccountIdTooFewOnes(");
                push_decimal(&mut text, *expected as u64);
                push_text(&mut text, ", ");
                push_decimal(&mut text, *actual as u64);
                push_text(&mut text, ")");
            },
            AccountError::HeaderDataIncorrectLength(actual, expected) => {
                push_text(&mut text, "HeaderDataIncorrectLength(");
                push_decimal(&mut text, *actual as u64);
                push_text(&mut text, ", ");
                push_decimal(&mut text, *expected as u64);
                push_text(&mut text, ")");
            },
            AccountError::InvalidAccountStorageMode => {
                push_text(&mut text, "InvalidAccountStorageMode");
            },
            AccountError::StorageIndexOutOfBounds { max, actual } => {
                push_text(&mut text, "StorageIndexOutOfBounds { max: ");
                push_decimal(&mut text, *max as u64);
                push_text(&mut text, ", actual: ");
                push_decimal(&mut text, *actual as u64);
                push_text(&mut text, " }");
            },
            AccountError::StorageTooManySlots(count) => {
                push_text(&mut text, "StorageTooManySlots(");
                push_decimal(&mut text, *count);
                push_text(&mut text, ")");
            },
        }
        proof {
            assert(text@ =~= self.message());
        }
        text
    }
}

/// A failure reported by the asset layer, carried as its diagnostic text.
#[derive(Debug, Eq)]
pub struct AssetError {
    message: String,
}

impl Clone for AssetError {
    fn clone(&self) -> (copy: AssetError)
        ensures
            copy@ == self@,
    {
        AssetError { message: self.message.clone() }
    }
}

impl View for AssetError {
    type V = Seq<char>;

    /// The diagnostic text.
    closed spec fn view(&self) -> Seq<char> {
        self.message@
    }
}

impl PartialEqSpecImpl for AssetError {
    open spec fn obeys_eq_spec() -> bool {
        true
    }

    open spec fn eq_spec(&self, other: &AssetError) -> bool {
        self@ == other@
    }
}

impl PartialEq for AssetError {
    /// Two errors are equal if and only if their texts are.
    fn eq(&self, other: &AssetError) -> (equal: bool)
        ensures
            equal == (self@ == other@),
    {
        self.message == other.message
    }
}

impl AssetError {
    /// The error with the diagnostic text `message`.
    pub fn new(message: String) -> (error: AssetError)
        ensures
            error@ == message@,
    {
        AssetError { message }
    }

    /// The diagnostic text of the error.
    pub fn to_string(&self) -> (text: String)
        ensures
            text@ == self@,
    {
        self.message.clone()
    }
}

/// A failure reported by the note layer, carried as its diagnostic text.
#[derive(Debug, Eq)]
pub struct NoteError {
    message: String,
}

impl Clone for NoteError {
    fn clone(&self) -> (copy: NoteError)
        ensures
            copy@ == self@,
    {
        NoteError { message: self.message.clone() }
    }
}

impl View for NoteError {
    type V = Seq<char>;

    /// The diagnostic text.
    closed spec fn view(&self) -> Seq<char> {
        self.message@
    }
}

impl PartialEqSpecImpl for NoteError {
    open spec fn obeys_eq_spec() -> bool {
        true
    }

    open spec fn eq_spec(&self, other: &NoteError) -> bool {
        self@ == other@
    }
}

impl PartialEq for NoteError {
    /// Two errors are equal if and only if their texts are.
    fn eq(&self, other: &NoteError) -> (equal: bool)
        ensures
            equal == (self@ == other@),
    {
        self.message == other.message
    }
}

impl NoteError {
    /// The error with the diagnostic text `message`.
    pub fn new(message: String) -> (error: NoteError)
        ensures
            error@ == message@,
    {
        NoteError { message }
    }

    /// The diagnostic text of the error.
    pub fn to_string(&self) -> (text: String)
        ensures
            text@ == self@,
    {
        self.message.clone()
    }
}

/// A failure reported by the account delta layer, carried as its diagnostic text.
#[derive(Debug, Eq)]
pub struct AccountDeltaError {
    message: String,
}

impl Clone for AccountDeltaError {
    fn clone(&self) -> (copy: AccountDeltaError)
        ensures
            copy@ == self@,
    {
        AccountDeltaError { message: self.message.clone() }
    }
}

impl View for AccountDeltaError {
    type V = Seq<char>;

    /// The diagnostic text.
    closed spec fn view(&self) -> Seq<char> {
        self.message@
    }
}

impl PartialEqSpecImpl for AccountDeltaError {
    open spec fn obeys_eq_spec() -> bool {
        true
    }

    open spec fn eq_spec(&self, other: &AccountDeltaError) -> bool {
        self@ == other@
    }
}

impl PartialEq for AccountDeltaError {
    /// Two errors are equal if and only if their texts are.
    fn eq(&self, other: &AccountDeltaError) -> (equal: bool)
        ensures
            equal == (self@ == other@),
    {
        self.message == other.message
    }
}

impl AccountDeltaError {
    /// The error with the diagnostic text `message`.
    pub fn new(message: String) -> (error: AccountDeltaError)
        ensures
            error@ == message@,
    {
        AccountDeltaError { message }
    }

    /// The diagnostic text of the error.
    pub fn to_string(&self) -> (text: String)
        ensures
            text@ == self@,
    {
        self.message.clone()
    }
}

} // verus!
