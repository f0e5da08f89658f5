//! Reading the kernel's outputs back into typed values.

use crate::accounts::account_id::{id_failure, AccountId};
use crate::accounts::header::{AccountHeader, HeaderView};
use crate::digest::Digest;
use crate::errors::AccountError;
use crate::felt::{word_ints, Word};
use crate::transaction::memory::{
    ACCT_CODE_COMMITMENT_OFFSET, ACCT_DATA_MEM_SIZE, ACCT_ID_AND_NONCE_OFFSET, ACCT_ID_IDX,
    ACCT_NONCE_IDX, ACCT_STORAGE_COMMITMENT_OFFSET, ACCT_VAULT_ROOT_OFFSET,
};
use vstd::prelude::*;

verus! {

/// The word of the output stack at which the commitment to the output notes stands.
pub const OUTPUT_NOTES_COMMITMENT_WORD_IDX: usize = 0;

/// The word of the output stack at which the hash of the final account stands.
pub const FINAL_ACCOUNT_HASH_WORD_IDX: usize = 1;

/// The element of the output stack at which the expiration block height stands.
pub const EXPIRATION_BLOCK_ELEMENT_IDX: usize = 8;

/// What the account data of the kernel stands for.
///
/// The length is looked at first: anything but the expected number of words is an error that
/// carries the actual and the expected number. Then the identifier: an element that breaks
/// its validity rules is that rule's error. Otherwise each part of the header is the element
/// or the word at its place.
pub open spec fn parsed_header(elements: Seq<Word>) -> Result<HeaderView, AccountError> {
    if elements.len() != ACCT_DATA_MEM_SIZE {
        Err(AccountError::HeaderDataIncorrectLength(elements.len() as usize, ACCT_DATA_MEM_SIZE))
    } else {
        let first = elements[ACCT_ID_AND_NONCE_OFFSET as int];
        match id_failure(first[ACCT_ID_IDX as int]@) {
            Some(error) => Err(error),
            None => Ok(
                HeaderView {
                    id: first[ACCT_ID_IDX as int]@,
                    nonce: first[ACCT_NONCE_IDX as int]@,
                    vault_root: word_ints(elements[ACCT_VAULT_ROOT_OFFSET as int]),
                    storage_commitment: word_ints(elements[ACCT_STORAGE_COMMITMENT_OFFSET as int]),
                    code_commitment: word_ints(elements[ACCT_CODE_COMMITMENT_OFFSET as int]),
                },
            ),
        }
    }
}

/// Reads the header of the final account from the account data that the kernel returned.
pub fn parse_final_account_header(elements: &[Word]) -> (r: Result<AccountHeader, AccountError>)
    ensures
        match parsed_header(elements@) {
            Ok(view) => r matches Ok(header) && header@ == view,
            Err(error) => r matches Err(e) && e == error,
        },
{
    if elements.len() != ACCT_DATA_MEM_SIZE {
        return Err(AccountError::HeaderDataIncorrectLength(elements.len(), ACCT_DATA_MEM_SIZE));
    }
    let first = &elements[ACCT_ID_AND_NONCE_OFFSET as usize];
    let id = match AccountId::try_from(first[ACCT_ID_IDX]) {
        Err(e) => {
            return Err(e);
        },
        Ok(id) => id,
    };
    let nonce = first[ACCT_NONCE_IDX];
    let vault_root = Digest::new(elements[ACCT_VAULT_ROOT_OFFSET as usize]);
    let storage_commitment = Digest::new(elements[ACCT_STORAGE_COMMITMENT_OFFSET as usize]);
    let code_commitment = Digest::new(elements[ACCT_CODE_COMMITMENT_OFFSET as usize]);
    Ok(AccountHeader::new(id, nonce, vault_root, storage_commitment, code_commitment))
}

} // verus!
