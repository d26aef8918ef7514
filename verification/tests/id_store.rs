use contract_runtime::kvledger::id_store::{active_ledger_ids, encode_ledger_key, LEDGER_KEY_PREFIX};

#[test]
fn ledger_keys_carry_the_prefix() {
    assert_eq!(LEDGER_KEY_PREFIX, b'l');
    assert_eq!(encode_ledger_key("chain1"), b"lchain1".to_vec());
    assert_eq!(encode_ledger_key(""), vec![b'l']);
    assert_eq!(encode_ledger_key("é"), vec![b'l', 0xc3, 0xa9]);
}

#[test]
fn listing_recorded_ids_gives_them_back() {
    let keys = vec![
        encode_ledger_key("chain1"),
        encode_ledger_key("chain2"),
        encode_ledger_key("chain3"),
    ];
    assert_eq!(active_ledger_ids(&keys), vec!["chain1", "chain2", "chain3"]);
    let keys = vec![encode_ledger_key("été")];
    assert_eq!(active_ledger_ids(&keys), vec!["été"]);
}

#[test]
fn listing_stops_at_the_first_other_key() {
    let keys = vec![
        encode_ledger_key("a"),
        b"mother".to_vec(),
        encode_ledger_key("b"),
    ];
    assert_eq!(active_ledger_ids(&keys), vec!["a"]);
    assert!(active_ledger_ids(&Vec::new()).is_empty());
    assert!(active_ledger_ids(&vec![b"x".to_vec()]).is_empty());
}
