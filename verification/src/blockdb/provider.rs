use vstd::prelude::*;

use crate::blockdb::file_path::{
    block_store_path, chains_path, spec_block_store_path, spec_chains_path, spec_ledger_dir,
};
use crate::fs_path::join;

verus! {

/// Provides the block stores of the ledgers kept under one root directory.
pub struct LevelDBBlockStoreProvider {
    path: String,
}

impl View for LevelDBBlockStoreProvider {
    type V = Seq<char>;

    /// The root directory.
    closed spec fn view(&self) -> Seq<char> {
        self.path@
    }
}

impl LevelDBBlockStoreProvider {
    /// A provider rooted at `path`.
    pub fn new(path: &str) -> (res: Self)
        ensures
            res@ == path@,
    {
        LevelDBBlockStoreProvider { path: path.to_owned() }
    }

    /// The directory in which the block store of `ledger_id` is created and opened.
    pub fn block_store_location(&self, ledger_id: &str) -> (res: String)
        ensures
            res@ == spec_block_store_path(self@, ledger_id@),
    {
        block_store_path(self.path.as_str(), ledger_id)
    }

    /// The directory whose presence tells whether `ledger_id` exists.
    pub fn ledger_location(&self, ledger_id: &str) -> (res: String)
        ensures
            res@ == spec_ledger_dir(self@, ledger_id@),
    {
        let chains = chains_path(self.path.as_str());
        join(chains.as_str(), ledger_id)
    }

    /// The directory whose sub-directories are the ledgers.
    pub fn chains_location(&self) -> (res: String)
        ensures
            res@ == spec_chains_path(self@),
    {
        chains_path(self.path.as_str())
    }
}

} // verus!
