//! Account storage model, kernel output decoding and kernel error values
//! for the Miden rollup, with machine-checked contracts.

pub mod accounts;
pub mod codec;
pub mod digest;
pub mod errors;
pub mod felt;
pub mod merkle;
pub mod notes;
pub mod text;
pub mod transaction;
