use vstd::prelude::*;

use crate::blockdb::file_path::{spec_block_store_path, spec_chains_path, spec_ledger_dir};
use crate::fs_path::{join, path_join};

verus! {

/// `root/ledger-provider`: where the ledger id store lives.
pub open spec fn spec_ledger_provider_path(root: Seq<char>) -> Seq<char> {
    path_join(root, "ledger-provider"@)
}

/// `root/chains/<ledger_id>/statedb`: where the state database of a ledger lives.
pub open spec fn spec_state_db_path(root: Seq<char>, ledger_id: Seq<char>) -> Seq<char> {
    path_join(spec_ledger_dir(root, ledger_id), "statedb"@)
}

/// The directory of the ledger id store under `root_fs_path`.
pub fn ledger_provider_path(root_fs_path: &str) -> (res: String)
    ensures
        res@ == spec_ledger_provider_path(root_fs_path@),
{
    join(root_fs_path, "ledger-provider")
}

/// The state database directory of `ledger_id` under `root_fs_path`.
pub fn state_db_path(root_fs_path: &str, ledger_id: &str) -> (res: String)
    ensures
        res@ == spec_state_db_path(root_fs_path@, ledger_id@),
{
    let chains = join(root_fs_path, "chains");
    let ledger = join(chains.as_str(), ledger_id);
    join(ledger.as_str(), "statedb")
}

/// A ledger's block store and its state database are different
/// directories, whatever the root and the ledger id.
pub proof fn lemma_block_store_and_state_db_differ(root: Seq<char>, ledger_id: Seq<char>)
    ensures
        spec_block_store_path(root, ledger_id) != spec_state_db_path(root, ledger_id),
{
    reveal_strlit("blk-store");
    reveal_strlit("statedb");
    let d = spec_ledger_dir(root, ledger_id);
    assert(spec_block_store_path(root, ledger_id).len() == spec_state_db_path(root, ledger_id).len() + 2);
}

/// The ledger id store and the ledgers' directories are separate
/// directories under the same root.
pub proof fn lemma_provider_apart_from_chains(root: Seq<char>)
    ensures
        spec_ledger_provider_path(root) != spec_chains_path(root),
{
    reveal_strlit("ledger-provider");
    reveal_strlit("chains");
    assert(spec_ledger_provider_path(root).len() == spec_chains_path(root).len() + 9);
}

} // verus!
