//! The layout of the account data in the kernel's memory.

use vstd::prelude::*;

verus! {

/// A position in the kernel's memory, counted in words.
pub type MemoryOffset = u32;

/// The number of words of the account data.
pub const ACCT_DATA_MEM_SIZE: usize = 4;

/// The word that holds the identifier and the nonce.
pub const ACCT_ID_AND_NONCE_OFFSET: MemoryOffset = 0;

/// The element of its word that holds the identifier.
pub const ACCT_ID_IDX: usize = 0;

/// The element of its word that holds the nonce.
pub const ACCT_NONCE_IDX: usize = 3;

/// The word that holds the root of the vault.
pub const ACCT_VAULT_ROOT_OFFSET: MemoryOffset = 1;

/// The word that holds the commitment to the storage.
pub const ACCT_STORAGE_COMMITMENT_OFFSET: MemoryOffset = 2;

/// The word that holds the commitment to the code.
pub const ACCT_CODE_COMMITMENT_OFFSET: MemoryOffset = 3;

} // verus!
