//! Account headers: the identifier, the nonce and the three commitments that together
//! determine the commitment to an account's state.

use crate::accounts::account_id::AccountId;
use crate::digest::Digest;
use crate::felt::Felt;
use vstd::prelude::*;

verus! {

/// An account header as a mathematical value.
pub struct HeaderView {
    /// The integer of the identifier.
    pub id: u64,
    /// The integer of the nonce.
    pub nonce: u64,
    /// The integers of the root of the vault.
    pub vault_root: Seq<u64>,
    /// The integers of the commitment to the storage.
    pub storage_commitment: Seq<u64>,
    /// The integers of the commitment to the code.
    pub code_commitment: Seq<u64>,
}

/// The header of an account.
#[derive(Debug, Clone, Copy, PartialEq, Eq)]
pub struct AccountHeader {
    id: AccountId,
    nonce: Felt,
    vault_root: Digest,
    storage_commitment: Digest,
    code_commitment: Digest,
}

impl View for AccountHeader {
    type V = HeaderView;

    closed spec fn view(&self) -> HeaderView {
        HeaderView {
            id: self.id@,
            nonce: self.nonce@,
            vault_root: self.vault_root@,
            storage_commitment: self.storage_commitment@,
            code_commitment: self.code_commitment@,
        }
    }
}

impl AccountHeader {
    /// The header made of the five parts given.
    pub fn new(
        id: AccountId,
        nonce: Felt,
        vault_root: Digest,
        storage_commitment: Digest,
        code_commitment: Digest,
    ) -> (header: AccountHeader)
        ensures
            header@ == (HeaderView {
                id: id@,
                nonce: nonce@,
                vault_root: vault_root@,
                storage_commitment: storage_commitment@,
                code_commitment: code_commitment@,
            }),
    {
        AccountHeader { id, nonce, vault_root, storage_commitment, code_commitment }
    }

    /// The identifier of the account.
    pub fn id(&self) -> (id: AccountId)
        ensures
            id@ == self@.id,
    {
        self.id
    }

    /// The nonce of the account.
    pub fn nonce(&self) -> (nonce: Felt)
        ensures
            nonce@ == self@.nonce,
    {
        self.nonce
    }

    /// The root of the account's vault.
    pub fn vault_root(&self) -> (root: Digest)
        ensures
            root@ == self@.vault_root,
    {
        self.vault_root
    }

    /// The commitment to the account's storage.
    pub fn storage_commitment(&self) -> (commitment: Digest)
        ensures
            commitment@ == self@.storage_commitment,
    {
        self.storage_commitment
    }

    /// The commitment to the account's code.
    pub fn code_commitment(&self) -> (commitment: Digest)
        ensures
            commitment@ == self@.code_commitment,
    {
        self.code_commitment
    }
}

} // verus!
