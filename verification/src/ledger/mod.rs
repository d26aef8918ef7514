//! The ledger's blocks and the validation of their transactions.
pub mod block;
pub mod read_laws;
pub mod validate;
