use contract_runtime::blockdb::file_path::{block_store_path, chains_path};
use contract_runtime::blockdb::provider::LevelDBBlockStoreProvider;
use contract_runtime::fs_path::{extension, final_component, join, select_with_extension};
use contract_runtime::kvledger::file_path::{ledger_provider_path, state_db_path};

#[test]
fn ledger_path_tree() {
    assert_eq!(block_store_path("/data", "chain1"), "/data/chains/chain1/blk-store");
    assert_eq!(chains_path("/data"), "/data/chains");
    assert_eq!(ledger_provider_path("/data"), "/data/ledger-provider");
    assert_eq!(state_db_path("/data", "chain1"), "/data/chains/chain1/statedb");
    assert_eq!(block_store_path("/data/", "c"), "/data/chains/c/blk-store");
    assert_eq!(chains_path(""), "chains");
}

#[test]
fn distinct_ledgers_have_distinct_stores() {
    let a = block_store_path("/r", "a");
    let b = block_store_path("/r", "b");
    let empty = block_store_path("/r", "");
    assert_ne!(a, b);
    assert_ne!(a, empty);
    assert_eq!(empty, "/r/chains/blk-store");
    assert_ne!(block_store_path("/r", "a"), state_db_path("/r", "a"));
}

#[test]
fn join_follows_path_rules() {
    assert_eq!(join("a", "b"), "a/b");
    assert_eq!(join("a/", "b"), "a/b");
    assert_eq!(join("", "b"), "b");
    assert_eq!(join("a", "/b"), "/b");
    assert_eq!(join("a", ""), "a/");
    assert_eq!(join("a", ".build/app"), "a/.build/app");
    // an absolute ledger id replaces the chains directory
    assert_eq!(block_store_path("/data", "/x"), "/x/blk-store");
}

#[test]
fn provider_locations() {
    let p = LevelDBBlockStoreProvider::new("/ledger");
    assert_eq!(p.block_store_location("ch"), "/ledger/chains/ch/blk-store");
    assert_eq!(p.ledger_location("ch"), "/ledger/chains/ch");
    assert_eq!(p.chains_location(), "/ledger/chains");
}

#[test]
fn extensions_of_paths() {
    assert_eq!(extension("/src/a.sol"), Some(String::from("sol")));
    assert_eq!(extension("a.tar.gz"), Some(String::from("gz")));
    assert_eq!(extension(".hidden"), None);
    assert_eq!(extension("noext"), None);
    assert_eq!(extension("a."), Some(String::new()));
    assert_eq!(extension("dir/x.abi/"), Some(String::from("abi")));
    assert_eq!(extension("dir/x.abi/."), Some(String::from("abi")));
    assert_eq!(extension("x/.."), None);
    assert_eq!(extension("/"), None);
    assert_eq!(final_component("/a/b//"), Some(String::from("b")));
    assert_eq!(final_component(""), None);
}

#[test]
fn select_with_extension_keeps_order() {
    let paths = vec![
        String::from("d/b.sol"),
        String::from("d/a.bin"),
        String::from("d/c.sol"),
        String::from("d/.sol"),
    ];
    assert_eq!(
        select_with_extension(&paths, "sol"),
        vec![String::from("d/b.sol"), String::from("d/c.sol")]
    );
    assert!(select_with_extension(&paths, "abi").is_empty());
}
