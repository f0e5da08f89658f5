//! Accounts: identifiers, headers and storage, as far as their commitments go.

pub mod account_id;
pub mod header;
pub mod storage;
