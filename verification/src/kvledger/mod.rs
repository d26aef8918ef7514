//! Key-value ledger: its directory layout and the ledger id store codec.
pub mod file_path;
pub mod id_store;
