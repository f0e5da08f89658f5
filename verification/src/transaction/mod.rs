//! What the transaction kernel leaves behind, and what can be wrong with it.

pub mod errors;
pub mod events;
pub mod memory;
pub mod outputs;
