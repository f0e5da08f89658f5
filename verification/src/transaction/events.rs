//! The identifiers of the kernel's events and traces, and how an identifier is told apart
//! from those of other programs.

use crate::transaction::errors::{TransactionEventParsingError, TransactionTraceParsingError};
use vstd::prelude::*;
use vstd::std_specs::convert::TryFromSpecImpl;

verus! {

/// The upper half of the identifiers of the kernel's events and traces.
pub const EVENT_ID_PREFIX: u16 = 2;

/// The value of the lowest bit of the upper half of an identifier.
pub const KERNEL_ID_UNIT: u32 = 0x1_0000;

/// Whether the upper half of `id` is the kernel's prefix.
pub open spec fn is_kernel_id(id: u32) -> bool {
    id / KERNEL_ID_UNIT == EVENT_ID_PREFIX
}

/// The events of the transaction kernel.
#[derive(Debug, Clone, Copy, PartialEq, Eq, Structural)]
pub enum TransactionEvent {
    /// An asset is about to be added to the vault.
    AccountVaultBeforeAddAsset,
    /// An asset was added to the vault.
    AccountVaultAfterAddAsset,
    /// An asset is about to be removed from the vault.
    AccountVaultBeforeRemoveAsset,
    /// An asset was removed from the vault.
    AccountVaultAfterRemoveAsset,
    /// A storage slot is about to be set.
    AccountStorageBeforeSetItem,
    /// A storage slot was set.
    AccountStorageAfterSetItem,
    /// An entry of a storage map is about to be set.
    AccountStorageBeforeSetMapItem,
    /// An entry of a storage map was set.
    AccountStorageAfterSetMapItem,
    /// The nonce is about to be incremented.
    AccountBeforeIncrementNonce,
    /// The nonce was incremented.
    AccountAfterIncrementNonce,
    /// The index of a procedure is asked for.
    AccountPushProcedureIndex,
    /// A note is about to be created.
    NoteBeforeCreated,
    /// A note was created.
    NoteAfterCreated,
    /// An asset is about to be added to a note.
    NoteBeforeAddAsset,
    /// An asset was added to a note.
    NoteAfterAddAsset,
}

impl TransactionEvent {
    /// The identifier of the event: the kernel's prefix in its upper half, the event's
    /// number in its lower half.
    pub open spec fn id_of(self) -> u32 {
        match self {
            TransactionEvent::AccountVaultBeforeAddAsset => 0x2_0000,
            TransactionEvent::AccountVaultAfterAddAsset => 0x2_0001,
            TransactionEvent::AccountVaultBeforeRemoveAsset => 0x2_0002,
            TransactionEvent::AccountVaultAfterRemoveAsset => 0x2_0003,
            TransactionEvent::AccountStorageBeforeSetItem => 0x2_0004,
            TransactionEvent::AccountStorageAfterSetItem => 0x2_0005,
            TransactionEvent::AccountStorageBeforeSetMapItem => 0x2_0006,
            TransactionEvent::AccountStorageAfterSetMapItem => 0x2_0007,
            TransactionEvent::AccountBeforeIncrementNonce => 0x2_0008,
            TransactionEvent::AccountAfterIncrementNonce => 0x2_0009,
            TransactionEvent::AccountPushProcedureIndex => 0x2_000a,
            TransactionEvent::NoteBeforeCreated => 0x2_000b,
            TransactionEvent::NoteAfterCreated => 0x2_000c,
            TransactionEvent::NoteBeforeAddAsset => 0x2_000d,
            TransactionEvent::NoteAfterAddAsset => 0x2_000e,
        }
    }

    /// The identifier of the event.
    pub fn id(&self) -> (id: u32)
        ensures
            id == self.id_of(),
    {
        match self {
            TransactionEvent::AccountVaultBeforeAddAsset => 0x2_0000,
            TransactionEvent::AccountVaultAfterAddAsset => 0x2_0001,
            TransactionEvent::AccountVaultBeforeRemoveAsset => 0x2_0002,
            TransactionEvent::AccountVaultAfterRemoveAsset => 0x2_0003,
            TransactionEvent::AccountStorageBeforeSetItem => 0x2_0004,
            TransactionEvent::AccountStorageAfterSetItem => 0x2_0005,
            TransactionEvent::AccountStorageBeforeSetMapItem => 0x2_0006,
            TransactionEvent::AccountStorageAfterSetMapItem => 0x2_0007,
            TransactionEvent::AccountBeforeIncrementNonce => 0x2_0008,
            TransactionEvent::AccountAfterIncrementNonce => 0x2_0009,
            TransactionEvent::AccountPushProcedureIndex => 0x2_000a,
            TransactionEvent::NoteBeforeCreated => 0x2_000b,
            TransactionEvent::NoteAfterCreated => 0x2_000c,
            TransactionEvent::NoteBeforeAddAsset => 0x2_000d,
            TransactionEvent::NoteAfterAddAsset => 0x2_000e,
        }
    }
}

/// What an identifier stands for as an event: one whose upper half is not the kernel's
/// prefix is not the kernel's; one of the kernel's is the event with that identifier, or
/// invalid where there is none.
pub open spec fn classify_event(id: u32) -> Result<TransactionEvent, TransactionEventParsingError> {
    if !is_kernel_id(id) {
        Err(TransactionEventParsingError::NotTransactionEvent(id))
    } else if id == 0x2_0000 {
        Ok(TransactionEvent::AccountVaultBeforeAddAsset)
    } else if id == 0x2_0001 {
        Ok(TransactionEvent::AccountVaultAfterAddAsset)
    } else if id == 0x2_0002 {
        Ok(TransactionEvent::AccountVaultBeforeRemoveAsset)
    } else if id == 0x2_0003 {
        Ok(TransactionEvent::AccountVaultAfterRemoveAsset)
    } else if id == 0x2_0004 {
        Ok(TransactionEvent::AccountStorageBeforeSetItem)
    } else if id == 0x2_0005 {
        Ok(TransactionEvent::AccountStorageAfterSetItem)
    } else if id == 0x2_0006 {
        Ok(TransactionEvent::AccountStorageBeforeSetMapItem)
    } else if id == 0x2_0007 {
        Ok(TransactionEvent::AccountStorageAfterSetMapItem)
    } else if id == 0x2_0008 {
        Ok(TransactionEvent::AccountBeforeIncrementNonce)
    } else if id == 0x2_0009 {
        Ok(TransactionEvent::AccountAfterIncrementNonce)
    } else if id == 0x2_000a {
        Ok(TransactionEvent::AccountPushProcedureIndex)
    } else if id == 0x2_000b {
        Ok(TransactionEvent::NoteBeforeCreated)
    } else if id == 0x2_000c {
        Ok(TransactionEvent::NoteAfterCreated)
    } else if id == 0x2_000d {
        Ok(TransactionEvent::NoteBeforeAddAsset)
    } else if id == 0x2_000e {
        Ok(TransactionEvent::NoteAfterAddAsset)
    } else {
        Err(TransactionEventParsingError::InvalidTransactionEvent(id))
    }
}

/// An identifier stands for an event if and only if it is that event's identifier.
pub proof fn lemma_classify_event(id: u32, event: TransactionEvent)
    ensures
        classify_event(id) == Ok::<TransactionEvent, TransactionEventParsingError>(event) <==> id == event.id_of(),
        classify_event(event.id_of()) == Ok::<TransactionEvent, TransactionEventParsingError>(event),
{
}

impl TryFromSpecImpl<u32> for TransactionEvent {
    open spec fn obeys_try_from_spec() -> bool {
        true
    }

    open spec fn try_from_spec(id: u32) -> Result<TransactionEvent, TransactionEventParsingError> {
        classify_event(id)
    }
}

impl TryFrom<u32> for TransactionEvent {
    type Error = TransactionEventParsingError;

    /// The event that `id` stands for.
    fn try_from(id: u32) -> (r: Result<TransactionEvent, TransactionEventParsingError>)
        ensures
            r == classify_event(id),
    {
        if id / KERNEL_ID_UNIT != EVENT_ID_PREFIX as u32 {
            return Err(TransactionEventParsingError::NotTransactionEvent(id));
        }
        if id == 0x2_0000 {
            return Ok(TransactionEvent::AccountVaultBeforeAddAsset);
        }
        if id == 0x2_0001 {
            return Ok(TransactionEvent::AccountVaultAfterAddAsset);
        }
        if id == 0x2_0002 {
            return Ok(TransactionEvent::AccountVaultBeforeRemoveAsset);
        }
        if id == 0x2_0003 {
            return Ok(TransactionEvent::AccountVaultAfterRemoveAsset);
        }
        if id == 0x2_0004 {
            return Ok(TransactionEvent::AccountStorageBeforeSetItem);
        }
        if id == 0x2_0005 {
            return Ok(TransactionEvent::AccountStorageAfterSetItem);
        }
        if id == 0x2_0006 {
            return Ok(TransactionEvent::AccountStorageBeforeSetMapItem);
        }
        if id == 0x2_0007 {
            return Ok(TransactionEvent::AccountStorageAfterSetMapItem);
        }
        if id == 0x2_0008 {
            return Ok(TransactionEvent::AccountBeforeIncrementNonce);
        }
        if id == 0x2_0009 {
            return Ok(TransactionEvent::AccountAfterIncrementNonce);
        }
        if id == 0x2_000a {
            return Ok(TransactionEvent::AccountPushProcedureIndex);
        }
        if id == 0x2_000b {
            return Ok(TransactionEvent::NoteBeforeCreated);
        }
        if id == 0x2_000c {
            return Ok(TransactionEvent::NoteAfterCreated);
        }
        if id == 0x2_000d {
            return Ok(TransactionEvent::NoteBeforeAddAsset);
        }
        if id == 0x2_000e {
            return Ok(TransactionEvent::NoteAfterAddAsset);
        }
        Err(TransactionEventParsingError::InvalidTransactionEvent(id))
    }
}

/// The traces of the transaction kernel.
#[derive(Debug, Clone, Copy, PartialEq, Eq, Structural)]
pub enum TransactionTrace {
    /// The prologue starts.
    PrologueStart,
    /// The prologue ends.
    PrologueEnd,
    /// The processing of the notes starts.
    NotesProcessingStart,
    /// The processing of the notes ends.
    NotesProcessingEnd,
    /// The execution of a note starts.
    NoteExecutionStart,
    /// The execution of a note ends.
    NoteExecutionEnd,
    /// The processing of the transaction script starts.
    TxScriptProcessingStart,
    /// The processing of the transaction script ends.
    TxScriptProcessingEnd,
    /// The epilogue starts.
    EpilogueStart,
    /// The epilogue ends.
    EpilogueEnd,
}

impl TransactionTrace {
    /// The identifier of the trace: the kernel's prefix in its upper half, the trace's
    /// number in its lower half.
    pub open spec fn id_of(self) -> u32 {
        match self {
            TransactionTrace::PrologueStart => 0x2_0000,
            TransactionTrace::PrologueEnd => 0x2_0001,
            TransactionTrace::NotesProcessingStart => 0x2_0002,
            TransactionTrace::NotesProcessingEnd => 0x2_0003,
            TransactionTrace::NoteExecutionStart => 0x2_0004,
            TransactionTrace::NoteExecutionEnd => 0x2_0005,
            TransactionTrace::TxScriptProcessingStart => 0x2_0006,
            TransactionTrace::TxScriptProcessingEnd => 0x2_0007,
            TransactionTrace::EpilogueStart => 0x2_0008,
            TransactionTrace::EpilogueEnd => 0x2_0009,
        }
    }

    /// The identifier of the trace.
    pub fn id(&self) -> (id: u32)
        ensures
            id == self.id_of(),
    {
        match self {
            TransactionTrace::PrologueStart => 0x2_0000,
            TransactionTrace::PrologueEnd => 0x2_0001,
            TransactionTrace::NotesProcessingStart => 0x2_0002,
            TransactionTrace::NotesProcessingEnd => 0x2_0003,
            TransactionTrace::NoteExecutionStart => 0x2_0004,
            TransactionTrace::NoteExecutionEnd => 0x2_0005,
            TransactionTrace::TxScriptProcessingStart => 0x2_0006,
            TransactionTrace::TxScriptProcessingEnd => 0x2_0007,
            TransactionTrace::EpilogueStart => 0x2_0008,
            TransactionTrace::EpilogueEnd => 0x2_0009,
        }
    }
}

/// What an identifier stands for as a trace: one whose upper half is not the kernel's
/// prefix is not the kernel's; one of the kernel's is the trace with that identifier, or
/// invalid where there is none.
pub open spec fn classify_trace(id: u32) -> Result<TransactionTrace, TransactionTraceParsingError> {
    if !is_kernel_id(id) {
        Err(TransactionTraceParsingError::NotTransactionTrace(id))
    } else if id == 0x2_0000 {
        Ok(TransactionTrace::PrologueStart)
    } else if id == 0x2_0001 {
        Ok(TransactionTrace::PrologueEnd)
    } else if id == 0x2_0002 {
        Ok(TransactionTrace::NotesProcessingStart)
    } else if id == 0x2_0003 {
        Ok(TransactionTrace::NotesProcessingEnd)
    } else if id == 0x2_0004 {
        Ok(TransactionTrace::NoteExecutionStart)
    } else if id == 0x2_0005 {
        Ok(TransactionTrace::NoteExecutionEnd)
    } else if id == 0x2_0006 {
        Ok(TransactionTrace::TxScriptProcessingStart)
    } else if id == 0x2_0007 {
        Ok(TransactionTrace::TxScriptProcessingEnd)
    } else if id == 0x2_0008 {
        Ok(TransactionTrace::EpilogueStart)
    } else if id == 0x2_0009 {
        Ok(TransactionTrace::EpilogueEnd)
    } else {
        Err(TransactionTraceParsingError::InvalidTransactionTrace(id))
    }
}

/// An identifier stands for a trace if and only if it is that trace's identifier.
pub proof fn lemma_classify_trace(id: u32, trace: TransactionTrace)
    ensures
        classify_trace(id) == Ok::<TransactionTrace, TransactionTraceParsingError>(trace) <==> id == trace.id_of(),
        classify_trace(trace.id_of()) == Ok::<TransactionTrace, TransactionTraceParsingError>(trace),
{
}

impl TryFromSpecImpl<u32> for TransactionTrace {
    open spec fn obeys_try_from_spec() -> bool {
        true
    }

    open spec fn try_from_spec(id: u32) -> Result<TransactionTrace, TransactionTraceParsingError> {
        classify_trace(id)
    }
}

impl TryFrom<u32> for TransactionTrace {
    type Error = TransactionTraceParsingError;

    /// The trace that `id` stands for.
    fn try_from(id: u32) -> (r: Result<TransactionTrace, TransactionTraceParsingError>)
        ensures
            r == classify_trace(id),
    {
        if id / KERNEL_ID_UNIT != EVENT_ID_PREFIX as u32 {
            return Err(TransactionTraceParsingError::NotTransactionTrace(id));
        }
        if id == 0x2_0000 {
            return Ok(TransactionTrace::PrologueStart);
        }
        if id == 0x2_0001 {
            return Ok(TransactionTrace::PrologueEnd);
        }
        if id == 0x2_0002 {
            return Ok(TransactionTrace::NotesProcessingStart);
        }
        if id == 0x2_0003 {
            return Ok(TransactionTrace::NotesProcessingEnd);
        }
        if id == 0x2_0004 {
            return Ok(TransactionTrace::NoteExecutionStart);
        }
        if id == 0x2_0005 {
            return Ok(TransactionTrace::NoteExecutionEnd);
        }
        if id == 0x2_0006 {
            return Ok(TransactionTrace::TxScriptProcessingStart);
        }
        if id == 0x2_0007 {
            return Ok(TransactionTrace::TxScriptProcessingEnd);
        }
        if id == 0x2_0008 {
            return Ok(TransactionTrace::EpilogueStart);
        }
        if id == 0x2_0009 {
            return Ok(TransactionTrace::EpilogueEnd);
        }
        Err(TransactionTraceParsingError::InvalidTransactionTrace(id))
    }
}

} // verus!
