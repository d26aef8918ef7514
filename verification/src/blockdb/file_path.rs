use vstd::prelude::*;

use crate::fs_path::{is_absolute, is_separator, join, path_join};

verus! {

// ledger path tree
// ledger
//     ledger-provider
//     chains
//         chain1
//             blk-store
//             history
//             statedb
//             index
//         chain2
//             ...

/// `root/chains`: the directory that holds one directory per ledger.
pub open spec fn spec_chains_path(root: Seq<char>) -> Seq<char> {
    path_join(root, "chains"@)
}

/// `root/chains/<ledger_id>`: the directory of one ledger.
pub open spec fn spec_ledger_dir(root: Seq<char>, ledger_id: Seq<char>) -> Seq<char> {
    path_join(spec_chains_path(root), ledger_id)
}

/// `root/chains/<ledger_id>/blk-store`: where the blocks of a ledger are kept.
pub open spec fn spec_block_store_path(root: Seq<char>, ledger_id: Seq<char>) -> Seq<char> {
    path_join(spec_ledger_dir(root, ledger_id), "blk-store"@)
}

/// The block store directory of `ledger_id` under `root_fs_path`.
pub fn block_store_path(root_fs_path: &str, ledger_id: &str) -> (res: String)
    ensures
        res@ == spec_block_store_path(root_fs_path@, ledger_id@),
{
    let chains = join(root_fs_path, "chains");
    let ledger = join(chains.as_str(), ledger_id);
    join(ledger.as_str(), "blk-store")
}

/// The directory under `root_fs_path` that holds the ledgers.
pub fn chains_path(root_fs_path: &str) -> (res: String)
    ensures
        res@ == spec_chains_path(root_fs_path@),
{
    join(root_fs_path, "chains")
}

/// A relative `part` joined to a non-empty `base` that does not end with a
/// separator comes after exactly one separator.
pub proof fn lemma_join_relative(base: Seq<char>, part: Seq<char>)
    requires
        !is_absolute(part),
        base.len() > 0,
        !is_separator(base.last()),
    ensures
        path_join(base, part) == base + seq!['/'] + part,
{
}

/// The chains directory never ends with a separator.
pub proof fn lemma_chains_path_shape(root: Seq<char>)
    ensures
        spec_chains_path(root).len() > 0,
        !is_separator(spec_chains_path(root).last()),
{
    reveal_strlit("chains");
}

/// The block store of a ledger sits in the ledger's directory under
/// `root/chains`: `root/chains/<id>/blk-store`, one separator between
/// the parts, for a ledger id that is relative and does not end with a
/// separator.
pub proof fn lemma_block_store_path_shape(root: Seq<char>, ledger_id: Seq<char>)
    requires
        ledger_id.len() > 0,
        !is_absolute(ledger_id),
        !is_separator(ledger_id.last()),
    ensures
        spec_block_store_path(root, ledger_id) == spec_chains_path(root) + seq!['/'] + ledger_id
            + seq!['/'] + "blk-store"@,
{
    reveal_strlit("blk-store");
    lemma_chains_path_shape(root);
    let c = spec_chains_path(root);
    let d = c + seq!['/'] + ledger_id;
    assert(spec_ledger_dir(root, ledger_id) == d);
    assert(d.last() == ledger_id.last());
}

/// Distinct ledgers have distinct block stores: two different ledger ids,
/// each relative and not ending with a separator, never share a block
/// store directory under the same root.
pub proof fn lemma_block_store_paths_distinct(root: Seq<char>, id1: Seq<char>, id2: Seq<char>)
    requires
        id1 != id2,
        !is_absolute(id1),
        !is_absolute(id2),
        id1.len() > 0 ==> !is_separator(id1.last()),
        id2.len() > 0 ==> !is_separator(id2.last()),
    ensures
        spec_block_store_path(root, id1) != spec_block_store_path(root, id2),
{
    reveal_strlit("blk-store");
    lemma_chains_path_shape(root);
    let c = spec_chains_path(root);
    let b = "blk-store"@;
    let p1 = spec_block_store_path(root, id1);
    let p2 = spec_block_store_path(root, id2);
    if id1.len() == 0 {
        assert(spec_ledger_dir(root, id1) == c + seq!['/']);
        assert(p1 == c + seq!['/'] + b);
    } else {
        lemma_block_store_path_shape(root, id1);
    }
    if id2.len() == 0 {
        assert(spec_ledger_dir(root, id2) == c + seq!['/']);
        assert(p2 == c + seq!['/'] + b);
    } else {
        lemma_block_store_path_shape(root, id2);
    }
    if id1.len() > 0 {
        assert(p1.len() == c.len() + 2 + id1.len() + b.len());
    } else {
        assert(p1.len() == c.len() + 1 + b.len());
    }
    if id2.len() > 0 {
        assert(p2.len() == c.len() + 2 + id2.len() + b.len());
    } else {
        assert(p2.len() == c.len() + 1 + b.len());
    }
    if id1.len() == 0 && id2.len() == 0 {
        assert(id1 =~= id2);
    }
    if p1 == p2 {
        if id1.len() > 0 && id2.len() > 0 {
            assert(id1.len() == id2.len());
            assert forall|k: int| 0 <= k < id1.len() implies id1[k] == id2[k] by {
                assert(p1[c.len() + 1 + k] == id1[k]);
                assert(p2[c.len() + 1 + k] == id2[k]);
            }
            assert(id1 =~= id2);
        }
    }
}

} // verus!
