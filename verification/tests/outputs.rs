use miden_account_core::accounts::account_id::{count_ones, AccountId, MIN_ACCOUNT_ONES};
use miden_account_core::accounts::header::AccountHeader;
use miden_account_core::digest::Digest;
use miden_account_core::errors::AccountError;
use miden_account_core::felt::{Felt, Word, MODULUS};
use miden_account_core::transaction::memory::{
    ACCT_CODE_COMMITMENT_OFFSET, ACCT_DATA_MEM_SIZE, ACCT_ID_AND_NONCE_OFFSET, ACCT_ID_IDX,
    ACCT_NONCE_IDX, ACCT_STORAGE_COMMITMENT_OFFSET, ACCT_VAULT_ROOT_OFFSET,
};
use miden_account_core::transaction::outputs::{
    parse_final_account_header, EXPIRATION_BLOCK_ELEMENT_IDX, FINAL_ACCOUNT_HASH_WORD_IDX,
    OUTPUT_NOTES_COMMITMENT_WORD_IDX,
};

const PUBLIC_ID: u64 = 0b0010011011 << 54;
const PRIVATE_ID: u64 = 0b1010011011 << 54;

fn word(a: u64, b: u64, c: u64, d: u64) -> Word {
    [Felt::new(a), Felt::new(b), Felt::new(c), Felt::new(d)]
}

fn account_data(id: u64) -> Vec<Word> {
    vec![word(id, 11, 12, 13), word(21, 22, 23, 24), word(31, 32, 33, 34), word(41, 42, 43, 44)]
}

#[test]
fn layout_of_the_account_data() {
    assert_eq!(ACCT_DATA_MEM_SIZE, 4);
    assert_eq!(ACCT_ID_AND_NONCE_OFFSET, 0);
    assert_eq!(ACCT_ID_IDX, 0);
    assert_eq!(ACCT_NONCE_IDX, 3);
    assert_eq!(ACCT_VAULT_ROOT_OFFSET, 1);
    assert_eq!(ACCT_STORAGE_COMMITMENT_OFFSET, 2);
    assert_eq!(ACCT_CODE_COMMITMENT_OFFSET, 3);
    assert_eq!(OUTPUT_NOTES_COMMITMENT_WORD_IDX, 0);
    assert_eq!(FINAL_ACCOUNT_HASH_WORD_IDX, 1);
    assert_eq!(EXPIRATION_BLOCK_ELEMENT_IDX, 8);
}

#[test]
fn decoder_length_gate() {
    let full = vec![
        word(PUBLIC_ID, 11, 12, 13),
        word(21, 22, 23, 24),
        word(31, 32, 33, 34),
        word(41, 42, 43, 44),
        word(51, 52, 53, 54),
        word(61, 62, 63, 64),
    ];
    for len in [0usize, 1, 2, 3, 5, 6] {
        assert_eq!(
            parse_final_account_header(&full[..len]),
            Err(AccountError::HeaderDataIncorrectLength(len, 4)),
            "length {len}"
        );
    }
    assert!(parse_final_account_header(&full[..4]).is_ok());
}

#[test]
fn decoder_checks_the_length_before_the_identifier() {
    // the identifier is invalid, and the length is wrong: the length is reported
    let data = vec![word(0, 11, 12, 13), word(21, 22, 23, 24), word(31, 32, 33, 34)];
    assert_eq!(
        parse_final_account_header(&data),
        Err(AccountError::HeaderDataIncorrectLength(3, 4))
    );
}

#[test]
fn decoder_success_path() {
    for id in [PUBLIC_ID, PRIVATE_ID] {
        let header = parse_final_account_header(&account_data(id)).unwrap();
        assert_eq!(header.id().felt(), Felt::new(id));
        assert_eq!(header.nonce(), Felt::new(13));
        assert_eq!(header.vault_root(), Digest::new(word(21, 22, 23, 24)));
        assert_eq!(header.storage_commitment(), Digest::new(word(31, 32, 33, 34)));
        assert_eq!(header.code_commitment(), Digest::new(word(41, 42, 43, 44)));
        let expected = AccountHeader::new(
            AccountId::try_from(Felt::new(id)).unwrap(),
            Felt::new(13),
            Digest::new(word(21, 22, 23, 24)),
            Digest::new(word(31, 32, 33, 34)),
            Digest::new(word(41, 42, 43, 44)),
        );
        assert_eq!(header, expected);
    }
}

#[test]
fn decoder_is_deterministic() {
    let data = account_data(PUBLIC_ID);
    assert_eq!(parse_final_account_header(&data), parse_final_account_header(&data));
    let data = account_data(3);
    assert_eq!(parse_final_account_header(&data), parse_final_account_header(&data));
}

#[test]
fn decoder_identifier_failure_path() {
    assert_eq!(
        parse_final_account_header(&account_data(0)),
        Err(AccountError::AccountIdTooFewOnes(5, 0))
    );
    assert_eq!(
        parse_final_account_header(&account_data(0b1111)),
        Err(AccountError::AccountIdTooFewOnes(5, 4))
    );
    assert_eq!(
        parse_final_account_header(&account_data(0b0110011011 << 54)),
        Err(AccountError::InvalidAccountStorageMode)
    );
    assert_eq!(
        parse_final_account_header(&account_data(0b1110011011 << 54)),
        Err(AccountError::InvalidAccountStorageMode)
    );
    // too few bits set is found before the storage mode is looked at
    assert_eq!(
        parse_final_account_header(&account_data(0b01 << 62)),
        Err(AccountError::AccountIdTooFewOnes(5, 1))
    );
}

#[test]
fn identifier_rules() {
    assert_eq!(MIN_ACCOUNT_ONES, 5);
    assert!(AccountId::try_from(Felt::new(PUBLIC_ID)).is_ok());
    assert!(AccountId::try_from(Felt::new(PRIVATE_ID)).is_ok());
    assert!(AccountId::try_from(Felt::new(0b11111)).is_ok());
    assert_eq!(AccountId::try_from(Felt::new(PUBLIC_ID)).unwrap().felt().as_int(), PUBLIC_ID);
    assert_eq!(
        AccountId::try_from(Felt::new(0b10111)),
        Err(AccountError::AccountIdTooFewOnes(5, 4))
    );
    assert_eq!(
        AccountId::try_from(Felt::new((1 << 62) | 0b11111)),
        Err(AccountError::InvalidAccountStorageMode)
    );
    assert_eq!(
        AccountId::try_from(Felt::new((0b11 << 62) | 0b11111)),
        Err(AccountError::InvalidAccountStorageMode)
    );
    assert!(AccountId::try_from(Felt::new(MODULUS - 1)).is_err());
}

#[test]
fn bits_are_counted() {
    for value in [0u64, 1, 2, 3, 255, 256, PUBLIC_ID, PRIVATE_ID, MODULUS, u64::MAX, 1 << 63] {
        assert_eq!(count_ones(value), value.count_ones());
    }
    assert_eq!(count_ones(u64::MAX), 64);
    assert_eq!(count_ones(0b1011), 3);
}
