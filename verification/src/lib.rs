//! Core logic of the contract runtime: the on-disk layout of ledgers,
//! the ledger id key codec, command-line classification, and the build
//! procedures of the supported contract kinds.
pub mod fs_path;
pub mod blockdb;
pub mod kvledger;
pub mod text;
pub mod repl;
pub mod contract;
pub mod service;
pub mod handler;
pub mod config;
pub mod error;
pub mod model;
pub mod pack;
pub mod ledger;
