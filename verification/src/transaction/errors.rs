//! The errors of the transaction kernel's host: what can be wrong with data that the
//! kernel left on the stack, in memory or in the advice provider, and with the identifiers
//! of its events and traces.

use crate::digest::Digest;
use crate::errors::{AccountDeltaError, AccountError, AssetError, NoteError};
use crate::felt::{clone_felts, felt_ints, felts_eq, Felt};
use crate::notes::NoteMetadata;
use crate::text::{bracketed, decimal, push_bracketed, push_decimal, push_text};
use vstd::prelude::*;
use vstd::std_specs::cmp::PartialEqSpecImpl;

verus! {

// ------------------------------------------------------------------------------------------------
// Kernel errors
// ------------------------------------------------------------------------------------------------

/// What can be wrong with data that the kernel's host takes from the stack, from memory
/// or from the advice provider.
#[derive(Debug, Eq)]
pub enum TransactionKernelError {
    /// The account delta could not be built.
    AccountDeltaError(AccountDeltaError),
    /// An asset could not be added to a note.
    FailedToAddAssetToNote(NoteError),
    /// Note inputs that do not hash to the expected digest.
    InvalidNoteInputs { expected: Digest, got: Digest, data: Option<Vec<Felt>> },
    /// An index at or beyond the number of storage slots.
    InvalidStorageSlotIndex { max: u64, actual: u64 },
    /// Data on the stack that is no account identifier.
    MalformedAccountId(AccountError),
    /// Data on the stack that is no asset.
    MalformedAsset(AssetError),
    /// Data that is no asset, met while the vault was updated.
    MalformedAssetOnAccountVaultUpdate(AssetError),
    /// Data in the advice map that is no list of note inputs.
    MalformedNoteInputs(NoteError),
    /// Metadata of a note that is not well formed.
    MalformedNoteMetadata(NoteError),
    /// Data in the advice map that is no note script.
    MalformedNoteScript(Vec<Felt>),
    /// Data on the stack that is no note type.
    MalformedNoteType(NoteError),
    /// Data in the advice provider that is no recipient.
    MalformedRecipientData(Vec<Felt>),
    /// Data on the stack that is no tag.
    MalformedTag(Felt),
    /// A note that is not in the advice provider: its index.
    MissingNote(String),
    /// A public note of which the advice provider lacks the details.
    MissingNoteDetails(NoteMetadata, Digest),
    /// A public note of which the advice provider lacks the inputs.
    MissingNoteInputs,
    /// A storage slot whose value could not be found: its index and why.
    MissingStorageSlotValue(u8, String),
    /// Fewer note inputs in the advice provider than their length announces.
    TooFewElementsForNoteInputs,
    /// A procedure of the account that is not in the advice provider: its root.
    UnknownAccountProcedure(Digest),
    /// A code commitment that is not in the advice provider.
    UnknownCodeCommitment(Digest),
    /// A place in memory that holds no value.
    MissingMemoryValue(u32),
}

/// A kernel error as a mathematical value: the variant and the values it carries, texts as
/// their characters, elements and digests as their integers.
#[allow(missing_docs)]
pub enum KernelErrorView {
    AccountDeltaError(Seq<char>),
    FailedToAddAssetToNote(Seq<char>),
    InvalidNoteInputs { expected: Seq<u64>, got: Seq<u64>, data: Option<Seq<u64>> },
    InvalidStorageSlotIndex { max: u64, actual: u64 },
    MalformedAccountId(AccountError),
    MalformedAsset(Seq<char>),
    MalformedAssetOnAccountVaultUpdate(Seq<char>),
    MalformedNoteInputs(Seq<char>),
    MalformedNoteMetadata(Seq<char>),
    MalformedNoteScript(Seq<u64>),
    MalformedNoteType(Seq<char>),
    MalformedRecipientData(Seq<u64>),
    MalformedTag(u64),
    MissingNote(Seq<char>),
    MissingNoteDetails(Seq<u64>, Seq<u64>),
    MissingNoteInputs,
    MissingStorageSlotValue(u8, Seq<char>),
    TooFewElementsForNoteInputs,
    UnknownAccountProcedure(Seq<u64>),
    UnknownCodeCommitment(Seq<u64>),
    MissingMemoryValue(u32),
}

/// The integers of an optional list of field elements.
pub open spec fn optional_ints(data: Option<Vec<Felt>>) -> Option<Seq<u64>> {
    match data {
        Some(felts) => Some(felt_ints(felts@)),
        None => None,
    }
}

/// The text of an optional list: `None`, or the bracketed list inside `Some(..)`.
pub open spec fn optional_list_text(data: Option<Seq<u64>>) -> Seq<char> {
    match data {
        Some(ints) => "Some("@ + bracketed(ints) + ")"@,
        None => "None"@,
    }
}

impl View for TransactionKernelError {
    type V = KernelErrorView;

    open spec fn view(&self) -> KernelErrorView {
        match self {
            TransactionKernelError::AccountDeltaError(e) => KernelErrorView::AccountDeltaError(e@),
            TransactionKernelError::FailedToAddAssetToNote(e) =>
                KernelErrorView::FailedToAddAssetToNote(e@),
            TransactionKernelError::InvalidNoteInputs { expected, got, data } =>
                KernelErrorView::InvalidNoteInputs {
                    expected: expected@,
                    got: got@,
                    data: optional_ints(*data),
                },
            TransactionKernelError::InvalidStorageSlotIndex { max, actual } =>
                KernelErrorView::InvalidStorageSlotIndex { max: *max, actual: *actual },
            TransactionKernelError::MalformedAccountId(e) => KernelErrorView::MalformedAccountId(
                *e,
            ),
            TransactionKernelError::MalformedAsset(e) => KernelErrorView::MalformedAsset(e@),
            TransactionKernelError::MalformedAssetOnAccountVaultUpdate(e) =>
                KernelErrorView::MalformedAssetOnAccountVaultUpdate(e@),
            TransactionKernelError::MalformedNoteInputs(e) => KernelErrorView::MalformedNoteInputs(
                e@,
            ),
            TransactionKernelError::MalformedNoteMetadata(e) =>
                KernelErrorView::MalformedNoteMetadata(e@),
            TransactionKernelError::MalformedNoteScript(data) =>
                KernelErrorView::MalformedNoteScript(felt_ints(data@)),
            TransactionKernelError::MalformedNoteType(e) => KernelErrorView::MalformedNoteType(e@),
            TransactionKernelError::MalformedRecipientData(data) =>
                KernelErrorView::MalformedRecipientData(felt_ints(data@)),
            TransactionKernelError::MalformedTag(tag) => KernelErrorView::MalformedTag(tag@),
            TransactionKernelError::MissingNote(index) => KernelErrorView::MissingNote(index@),
            TransactionKernelError::MissingNoteDetails(metadata, recipient) =>
                KernelErrorView::MissingNoteDetails(metadata@, recipient@),
            TransactionKernelError::MissingNoteInputs => KernelErrorView::MissingNoteInputs,
            TransactionKernelError::MissingStorageSlotValue(index, reason) =>
                KernelErrorView::MissingStorageSlotValue(*index, reason@),
            TransactionKernelError::TooFewElementsForNoteInputs =>
                KernelErrorView::TooFewElementsForNoteInputs,
            TransactionKernelError::UnknownAccountProcedure(root) =>
                KernelErrorView::UnknownAccountProcedure(root@),
            TransactionKernelError::UnknownCodeCommitment(commitment) =>
                KernelErrorView::UnknownCodeCommitment(commitment@),
            TransactionKernelError::MissingMemoryValue(location) =>
                KernelErrorView::MissingMemoryValue(*location),
        }
    }
}

impl Clone for TransactionKernelError {
    fn clone(&self) -> (copy: TransactionKernelError)
        ensures
            copy@ == self@,
    {
        match self {
            TransactionKernelError::AccountDeltaError(e) =>
                TransactionKernelError::AccountDeltaError(e.clone()),
            TransactionKernelError::FailedToAddAssetToNote(e) =>
                TransactionKernelError::FailedToAddAssetToNote(e.clone()),
            TransactionKernelError::InvalidNoteInputs { expected, got, data } => {
                let data = match data {
                    Some(felts) => Some(clone_felts(felts)),
                    None => None,
                };
                TransactionKernelError::InvalidNoteInputs { expected: *expected, got: *got, data }
            },
            TransactionKernelError::InvalidStorageSlotIndex { max, actual } =>
                TransactionKernelError::InvalidStorageSlotIndex { max: *max, actual: *actual },
            TransactionKernelError::MalformedAccountId(e) =>
                TransactionKernelError::MalformedAccountId(*e),
            TransactionKernelError::MalformedAsset(e) =>
                TransactionKernelError::MalformedAsset(e.clone()),
            TransactionKernelError::MalformedAssetOnAccountVaultUpdate(e) =>
                TransactionKernelError::MalformedAssetOnAccountVaultUpdate(e.clone()),
            TransactionKernelError::MalformedNoteInputs(e) =>
                TransactionKernelError::MalformedNoteInputs(e.clone()),
            TransactionKernelError::MalformedNoteMetadata(e) =>
                TransactionKernelError::MalformedNoteMetadata(e.clone()),
            TransactionKernelError::MalformedNoteScript(e) =>
                TransactionKernelError::MalformedNoteScript(clone_felts(e)),
            TransactionKernelError::MalformedNoteType(e) =>
                TransactionKernelError::MalformedNoteType(e.clone()),
            TransactionKernelError::MalformedRecipientData(e) =>
                TransactionKernelError::MalformedRecipientData(clone_felts(e)),
            TransactionKernelError::MalformedTag(e) => TransactionKernelError::MalformedTag(*e),
            TransactionKernelError::MissingNote(e) =>
                TransactionKernelError::MissingNote(e.clone()),
            TransactionKernelError::MissingNoteDetails(metadata, recipient) =>
                TransactionKernelError::MissingNoteDetails(*metadata, *recipient),
            TransactionKernelError::MissingNoteInputs => TransactionKernelError::MissingNoteInputs,
            TransactionKernelError::MissingStorageSlotValue(index, reason) =>
                TransactionKernelError::MissingStorageSlotValue(*index, reason.clone()),
            TransactionKernelError::TooFewElementsForNoteInputs =>
                TransactionKernelError::TooFewElementsForNoteInputs,
            TransactionKernelError::UnknownAccountProcedure(e) =>
                TransactionKernelError::UnknownAccountProcedure(*e),
            TransactionKernelError::UnknownCodeCommitment(e) =>
                TransactionKernelError::UnknownCodeCommitment(*e),
            TransactionKernelError::MissingMemoryValue(e) =>
                TransactionKernelError::MissingMemoryValue(*e),
        }
    }
}

impl PartialEqSpecImpl for TransactionKernelError {
    open spec fn obeys_eq_spec() -> bool {
        true
    }

    open spec fn eq_spec(&self, other: &TransactionKernelError) -> bool {
        self@ == other@
    }
}

impl PartialEq for TransactionKernelError {
    /// Two errors are equal if and only if they are of the same variant and carry the same
    /// values.
    fn eq(&self, other: &TransactionKernelError) -> (equal: bool)
        ensures
            equal == (self@ == other@),
    {
        match (self, other) {
            (
                TransactionKernelError::AccountDeltaError(a),
                TransactionKernelError::AccountDeltaError(b),
            ) => *a == *b,
            (
                TransactionKernelError::FailedToAddAssetToNote(a),
                TransactionKernelError::FailedToAddAssetToNote(b),
            ) => *a == *b,
            (
                TransactionKernelError::InvalidNoteInputs { expected: e1, got: g1, data: d1 },
                TransactionKernelError::InvalidNoteInputs { expected: e2, got: g2, data: d2 },
            ) => {
                let same_data = match (d1, d2) {
                    (Some(x), Some(y)) => felts_eq(x, y),
                    (None, None) => true,
                    _ => false,
                };
                *e1 == *e2 && *g1 == *g2 && same_data
            },
            (
                TransactionKernelError::InvalidStorageSlotIndex { max: m1, actual: a1 },
                TransactionKernelError::InvalidStorageSlotIndex { max: m2, actual: a2 },
            ) => *m1 == *m2 && *a1 == *a2,
            (
                TransactionKernelError::MalformedAccountId(a),
                TransactionKernelError::MalformedAccountId(b),
            ) => *a == *b,
            (
                TransactionKernelError::MalformedAsset(a),
                TransactionKernelError::MalformedAsset(b),
            ) => *a == *b,
            (
                TransactionKernelError::MalformedAssetOnAccountVaultUpdate(a),
                TransactionKernelError::MalformedAssetOnAccountVaultUpdate(b),
            ) => *a == *b,
            (
                TransactionKernelError::MalformedNoteInputs(a),
                TransactionKernelError::MalformedNoteInputs(b),
            ) => *a == *b,
            (
                TransactionKernelError::MalformedNoteMetadata(a),
                TransactionKernelError::MalformedNoteMetadata(b),
            ) => *a == *b,
            (
                TransactionKernelError::MalformedNoteScript(a),
                TransactionKernelError::MalformedNoteScript(b),
            ) => felts_eq(a, b),
            (
                TransactionKernelError::MalformedNoteType(a),
                TransactionKernelError::MalformedNoteType(b),
            ) => *a == *b,
            (
                TransactionKernelError::MalformedRecipientData(a),
                TransactionKernelError::MalformedRecipientData(b),
            ) => felts_eq(a, b),
            (
                TransactionKernelError::MalformedTag(a),
                TransactionKernelError::MalformedTag(b),
            ) => a.as_int() == b.as_int(),
            (TransactionKernelError::MissingNote(a), TransactionKernelError::MissingNote(b)) => *a == *b,
            (
                TransactionKernelError::MissingNoteDetails(m1, r1),
                TransactionKernelError::MissingNoteDetails(m2, r2),
            ) => *m1 == *m2 && *r1 == *r2,
            (
                TransactionKernelError::MissingNoteInputs,
                TransactionKernelError::MissingNoteInputs,
            ) => true,
            (
                TransactionKernelError::MissingStorageSlotValue(i1, r1),
                TransactionKernelError::MissingStorageSlotValue(i2, r2),
            ) => *i1 == *i2 && *r1 == *r2,
            (
                TransactionKernelError::TooFewElementsForNoteInputs,
                TransactionKernelError::TooFewElementsForNoteInputs,
            ) => true,
            (
                TransactionKernelError::UnknownAccountProcedure(a),
                TransactionKernelError::UnknownAccountProcedure(b),
            ) => *a == *b,
            (
                TransactionKernelError::UnknownCodeCommitment(a),
                TransactionKernelError::UnknownCodeCommitment(b),
            ) => *a == *b,
            (
                TransactionKernelError::MissingMemoryValue(a),
                TransactionKernelError::MissingMemoryValue(b),
            ) => *a == *b,
            _ => false,
        }
    }
}

impl TransactionKernelError {
    /// The diagnostic text of the error: what went wrong, with the values at fault.
    pub open spec fn message(&self) -> Seq<char> {
        match self {
            TransactionKernelError::AccountDeltaError(e) => "Account delta error: "@ + e@,
            TransactionKernelError::FailedToAddAssetToNote(e) => "Failed to add asset to note: "@
                + e@,
            TransactionKernelError::InvalidNoteInputs { expected, got, data } =>
                "The note input data does not match its hash, expected: "@ + expected.hex()
                    + " got: "@ + got.hex() + " data "@ + optional_list_text(optional_ints(*data)),
            TransactionKernelError::InvalidStorageSlotIndex { max, actual } =>
                "Storage slot index: "@ + decimal(*actual as nat)
                    + " is invalid, must be smaller than the number of account storage slots: "@
                    + decimal(*max as nat),
            TransactionKernelError::MalformedAccountId(e) =>
                "Account id data extracted from the stack by the event handler is not well formed "@
                    + e.message(),
            TransactionKernelError::MalformedAsset(e) =>
                "Asset data extracted from the stack by the event handler is not well formed "@
                    + e@,
            TransactionKernelError::MalformedAssetOnAccountVaultUpdate(e) =>
                "Malformed asset during account vault update: "@ + e@,
            TransactionKernelError::MalformedNoteInputs(e) =>
                "Note inputs data extracted from the advice map by the event handler is not well formed "@
                    + e@,
            TransactionKernelError::MalformedNoteMetadata(e) =>
                "Note metadata created by the event handler is not well formed "@ + e@,
            TransactionKernelError::MalformedNoteScript(data) =>
                "Note script data extracted from the advice map by the event handler is not well formed "@
                    + bracketed(felt_ints(data@)),
            TransactionKernelError::MalformedNoteType(e) =>
                "Note type data extracted from the stack by the event handler is not well formed "@
                    + e@,
            TransactionKernelError::MalformedRecipientData(data) =>
                "Recipient data in the advice provider is not well formed "@ + bracketed(
                    felt_ints(data@),
                ),
            TransactionKernelError::MalformedTag(tag) =>
                "Tag data extracted from the stack by the event handler is not well formed "@
                    + decimal(tag@ as nat),
            TransactionKernelError::MissingNote(index) => "Cannot add asset to note with index "@
                + index@ + ", note does not exist in the advice provider"@,
            TransactionKernelError::MissingNoteDetails(metadata, recipient) =>
                "Public note missing the details in the advice provider. metadata: "@
                    + metadata.debug_text() + ", recipient: "@ + recipient.debug_text(),
            TransactionKernelError::MissingNoteInputs =>
                "Public note missing or incomplete inputs in the advice provider"@,
            TransactionKernelError::MissingStorageSlotValue(index, reason) =>
                "Value for storage slot "@ + decimal(*index as nat) + " could not be found: "@
                    + reason@,
            TransactionKernelError::TooFewElementsForNoteInputs =>
                "Note input data in advice provider contains fewer elements than specified by its inputs length"@,
            TransactionKernelError::UnknownAccountProcedure(root) => "Account procedure with root "@
                + root.hex() + " is not in the advice provider"@,
            TransactionKernelError::UnknownCodeCommitment(commitment) => "Code commitment "@
                + commitment.hex() + " is not in the advice provider"@,
            TransactionKernelError::MissingMemoryValue(location) =>
                "Value missing in memory at location: "@ + decimal(*location as nat),
        }
    }

    /// The diagnostic text of the error.
    pub fn to_string(&self) -> (text: String)
        ensures
            text@ == self.message(),
    {
        let mut text = String::new();
        match self {
            TransactionKernelError::AccountDeltaError(e) => {
                push_text(&mut text, "Account delta error: ");
                push_text(&mut text, e.to_string().as_str());
            },
            TransactionKernelError::FailedToAddAssetToNote(e) => {
                push_text(&mut text, "Failed to add asset to note: ");
                push_text(&mut text, e.to_string().as_str());
            },
            TransactionKernelError::InvalidNoteInputs { expected, got, data } => {
                push_text(&mut text, "The note input data does not match its hash, expected: ");
                push_text(&mut text, expected.to_hex().as_str());
                push_text(&mut text, " got: ");
                push_text(&mut text, got.to_hex().as_str());
                push_text(&mut text, " data ");
                match data {
                    Some(felts) => {
                        push_text(&mut text, "Some(");
                        push_bracketed(&mut text, felts.as_slice());
                        push_text(&mut text, ")");
                    },
                    None => {
                        push_text(&mut text, "None");
                    },
                }
            },
            TransactionKernelError::InvalidStorageSlotIndex { max, actual } => {
                push_text(&mut text, "Storage slot index: ");
                push_decimal(&mut text, *actual);
                push_text(
                    &mut text,
                    " is invalid, must be smaller than the number of account storage slots: ",
                );
                push_decimal(&mut text, *max);
            },
            TransactionKernelError::MalformedAccountId(e) => {
                push_text(
                    &mut text,
                    "Account id data extracted from the stack by the event handler is not well formed ",
                );
                push_text(&mut text, e.to_string().as_str());
            },
            TransactionKernelError::MalformedAsset(e) => {
                push_text(
                    &mut text,
                    "Asset data extracted from the stack by the event handler is not well formed ",
                );
                push_text(&mut text, e.to_string().as_str());
            },
            TransactionKernelError::MalformedAssetOnAccountVaultUpdate(e) => {
                push_text(&mut text, "Malformed asset during account vault update: ");
                push_text(&mut text, e.to_string().as_str());
            },
            TransactionKernelError::MalformedNoteInputs(e) => {
                push_text(
                    &mut text,
                    "Note inputs data extracted from the advice map by the event handler is not well formed ",
                );
                push_text(&mut text, e.to_string().as_str());
            },
            TransactionKernelError::MalformedNoteMetadata(e) => {
                push_text(
                    &mut text,
                    "Note metadata created by the event handler is not well formed ",
                );
                push_text(&mut text, e.to_string().as_str());
            },
            TransactionKernelError::MalformedNoteScript(data) => {
                push_text(
                    &mut text,
                    "Note script data extracted from the advice map by the event handler is not well formed ",
                );
                push_bracketed(&mut text, data.as_slice());
            },
            TransactionKernelError::MalformedNoteType(e) => {
                push_text(
                    &mut text,
                    "Note type data extracted from the stack by the event handler is not well formed ",
                );
                push_text(&mut text, e.to_string().as_str());
            },
            TransactionKernelError::MalformedRecipientData(data) => {
                push_text(&mut text, "Recipient data in the advice provider is not well formed ");
                push_bracketed(&mut text, data.as_slice());
            },
            TransactionKernelError::MalformedTag(tag) => {
                push_text(
                    &mut text,
                    "Tag data extracted from the stack by the event handler is not well formed ",
                );
                push_decimal(&mut text, tag.as_int());
            },
            TransactionKernelError::MissingNote(index) => {
                push_text(&mut text, "Cannot add asset to note with index ");
                push_text(&mut text, index.as_str());
                push_text(&mut text, ", note does not exist in the advice provider");
            },
            TransactionKernelError::MissingNoteDetails(metadata, recipient) => {
                push_text(
                    &mut text,
                    "Public note missing the details in the advice provider. metadata: ",
                );
                push_text(&mut text, metadata.to_debug_string().as_str());
                push_text(&mut text, ", recipient: ");
                push_text(&mut text, recipient.to_debug_string().as_str());
            },
            TransactionKernelError::MissingNoteInputs => {
                push_text(
                    &mut text,
                    "Public note missing or incomplete inputs in the advice provider",
                );
            },
            TransactionKernelError::MissingStorageSlotValue(index, reason) => {
                push_text(&mut text, "Value for storage slot ");
                push_decimal(&mut text, *index as u64);
                push_text(&mut text, " could not be found: ");
                push_text(&mut text, reason.as_str());
            },
            TransactionKernelError::TooFewElementsForNoteInputs => {
                push_text(
                    &mut text,
                    "Note input data in advice provider contains fewer elements than specified by its inputs length",
                );
            },
            TransactionKernelError::UnknownAccountProcedure(root) => {
                push_text(&mut text, "Account procedure with root ");
                push_text(&mut text, root.to_hex().as_str());
                push_text(&mut text, " is not in the advice provider");
            },
            TransactionKernelError::UnknownCodeCommitment(commitment) => {
                push_text(&mut text, "Code commitment ");
                push_text(&mut text, commitment.to_hex().as_str());
                push_text(&mut text, " is not in the advice provider");
            },
            TransactionKernelError::MissingMemoryValue(location) => {
                push_text(&mut text, "Value missing in memory at location: ");
                push_decimal(&mut text, *location as u64);
            },
        }
        proof {
            assert(text@ =~= self.message());
        }
        text
    }
}

// ------------------------------------------------------------------------------------------------
// Event identifiers
// ------------------------------------------------------------------------------------------------

/// Why an identifier stands for no event of the transaction kernel.
#[derive(Debug, Clone, Copy, Eq)]
pub enum TransactionEventParsingError {
    /// The identifier is one of the kernel's, but of none of its events.
    InvalidTransactionEvent(u32),
    /// The identifier is not one of the kernel's.
    NotTransactionEvent(u32),
}

impl PartialEqSpecImpl for TransactionEventParsingError {
    open spec fn obeys_eq_spec() -> bool {
        true
    }

    open spec fn eq_spec(&self, other: &TransactionEventParsingError) -> bool {
        *self == *other
    }
}

impl PartialEq for TransactionEventParsingError {
    /// Two errors are equal if and only if they are of the same variant and carry the same
    /// identifier.
    fn eq(&self, other: &TransactionEventParsingError) -> (equal: bool)
        ensures
            equal == (*self == *other),
    {
        match (self, other) {
            (
                TransactionEventParsingError::InvalidTransactionEvent(a),
                TransactionEventParsingError::InvalidTransactionEvent(b),
            ) => *a == *b,
            (
                TransactionEventParsingError::NotTransactionEvent(a),
                TransactionEventParsingError::NotTransactionEvent(b),
            ) => *a == *b,
            _ => false,
        }
    }
}

impl TransactionEventParsingError {
    /// The diagnostic text of the error.
    pub open spec fn message(&self) -> Seq<char> {
        match self {
            TransactionEventParsingError::InvalidTransactionEvent(id) => "event "@ + decimal(
                *id as nat,
            ) + " is not a valid transaction kernel event"@,
            TransactionEventParsingError::NotTransactionEvent(id) => "event "@ + decimal(
                *id as nat,
            ) + " is not a transaction kernel event"@,
        }
    }

    /// The diagnostic text of the error.
    pub fn to_string(&self) -> (text: String)
        ensures
            text@ == self.message(),
    {
        let mut text = String::new();
        match self {
            TransactionEventParsingError::InvalidTransactionEvent(id) => {
                push_text(&mut text, "event ");
                push_decimal(&mut text, *id as u64);
                push_text(&mut text, " is not a valid transaction kernel event");
            },
            TransactionEventParsingError::NotTransactionEvent(id) => {
                push_text(&mut text, "event ");
                push_decimal(&mut text, *id as u64);
                push_text(&mut text, " is not a transaction kernel event");
            },
        }
        proof {
            assert(text@ =~= self.message());
        }
        text
    }
}

// ------------------------------------------------------------------------------------------------
// Trace identifiers
// ------------------------------------------------------------------------------------------------

/// Why an identifier stands for no trace of the transaction kernel.
#[derive(Debug, Clone, Copy, Eq)]
pub enum TransactionTraceParsingError {
    /// The identifier is one of the kernel's, but of none of its traces.
    InvalidTransactionTrace(u32),
    /// The identifier is not one of the kernel's.
    NotTransactionTrace(u32),
}

impl PartialEqSpecImpl for TransactionTraceParsingError {
    open spec fn obeys_eq_spec() -> bool {
        true
    }

    open spec fn eq_spec(&self, other: &TransactionTraceParsingError) -> bool {
        *self == *other
    }
}

impl PartialEq for TransactionTraceParsingError {
    /// Two errors are equal if and only if they are of the same variant and carry the same
    /// identifier.
    fn eq(&self, other: &TransactionTraceParsingError) -> (equal: bool)
        ensures
            equal == (*self == *other),
    {
        match (self, other) {
            (
                TransactionTraceParsingError::InvalidTransactionTrace(a),
                TransactionTraceParsingError::InvalidTransactionTrace(b),
            ) => *a == *b,
            (
                TransactionTraceParsingError::NotTransactionTrace(a),
                TransactionTraceParsingError::NotTransactionTrace(b),
            ) => *a == *b,
            _ => false,
        }
    }
}

impl TransactionTraceParsingError {
    /// The diagnostic text of the error.
    pub open spec fn message(&self) -> Seq<char> {
        match self {
            TransactionTraceParsingError::InvalidTransactionTrace(id) => "trace "@ + decimal(
                *id as nat,
            ) + " is invalid"@,
            TransactionTraceParsingError::NotTransactionTrace(id) => "trace "@ + decimal(
                *id as nat,
            ) + " is not a transaction kernel trace"@,
        }
    }

    /// The diagnostic text of the error.
    pub fn to_string(&self) -> (text: String)
        ensures
            text@ == self.message(),
    {
        let mut text = String::new();
        match self {
            TransactionTraceParsingError::InvalidTransactionTrace(id) => {
                push_text(&mut text, "trace ");
                push_decimal(&mut text, *id as u64);
                push_text(&mut text, " is invalid");
            },
            TransactionTraceParsingError::NotTransactionTrace(id) => {
                push_text(&mut text, "trace ");
                push_decimal(&mut text, *id as u64);
                push_text(&mut text, " is not a transaction kernel trace");
            },
        }
        proof {
            assert(text@ =~= self.message());
        }
        text
    }
}

} // verus!
