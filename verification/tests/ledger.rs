use contract_runtime::ledger::block::{
    init_tx_validation_flags, new_block, processed_transaction, Block, BlockData, BlockHeader, BlockMetadata,
};
use contract_runtime::ledger::validate::{
    RefusedWrite,
    validate_and_prepare_batch, validate_tx, CodeBytes, CollHashedRwSet, CommittedHashVersion, CommittedVersion,
    HashedRead, HashedUpdate, HashedWrite, Height, KvRead, KvWrite, NsRwSet, TxOutcome, TxValidationCode, Updates,
    ValidateError, Versions,
};

fn h(b: u64, t: u64) -> Height {
    Height { block_num: b, tx_num: t }
}

fn rw(ns: &str, reads: Vec<(&str, Option<Height>)>, writes: Vec<(&str, &[u8])>) -> NsRwSet {
    NsRwSet {
        namespace: ns.to_string(),
        reads: reads.into_iter().map(|(k, v)| KvRead { key: k.to_string(), version: v }).collect(),
        writes: writes.into_iter().map(|(k, v)| KvWrite { key: k.to_string(), value: v.to_vec() }).collect(),
        collections: vec![],
    }
}

const FILTER: usize = 2;
const N_METADATA: usize = 5;

fn codes() -> CodeBytes {
    CodeBytes { valid: 0, nil_txaction: 16, invalid_other_reason: 255, invalid_writeset: 24, mvcc_read_conflict: 11 }
}

fn block_of(number: u64, n_txs: usize) -> Block {
    let mut b = new_block(number, vec![], N_METADATA);
    b.data = Some(BlockData { data: (0..n_txs).map(|i| vec![i as u8]).collect() });
    b
}

fn filter(b: &Block) -> Vec<u8> {
    b.metadata.as_ref().unwrap().metadata[FILTER].clone()
}

fn others_empty(b: &Block) -> bool {
    let meta = &b.metadata.as_ref().unwrap().metadata;
    meta.len() == N_METADATA + 1 && meta.iter().enumerate().all(|(i, m)| i == FILTER || m.is_empty())
}

fn committed(entries: Vec<(&str, &str, Option<Height>)>) -> Versions {
    Versions {
        public: entries
            .into_iter()
            .map(|(ns, k, v)| CommittedVersion { namespace: ns.to_string(), key: k.to_string(), version: Ok(v) })
            .collect(),
        hashed: vec![],
        refused: vec![],
    }
}

fn empty_updates() -> Updates {
    Updates { writes: vec![], hashed: vec![] }
}

#[test]
fn reads_must_match_committed_versions() {
    let c = committed(vec![("cc", "a", Some(h(1, 0)))]);
    let ok = vec![rw("cc", vec![("a", Some(h(1, 0))), ("b", None)], vec![])];
    assert_eq!(validate_tx(&ok, &empty_updates(), &c), Ok(TxValidationCode::Valid));
    let stale = vec![rw("cc", vec![("a", Some(h(0, 3)))], vec![])];
    assert_eq!(validate_tx(&stale, &empty_updates(), &c), Ok(TxValidationCode::MvccReadConflict));
    let other_ns = vec![rw("other", vec![("a", Some(h(1, 0)))], vec![])];
    assert_eq!(validate_tx(&other_ns, &empty_updates(), &c), Ok(TxValidationCode::MvccReadConflict));
}

#[test]
fn reads_of_keys_written_earlier_in_the_block_conflict() {
    let c = committed(vec![]);
    let mut u = empty_updates();
    u.writes.push(contract_runtime::ledger::validate::BatchWrite {
        namespace: String::from("cc"),
        key: String::from("k"),
        value: vec![1],
        height: h(5, 0),
    });
    let tx = vec![rw("cc", vec![("k", None)], vec![])];
    assert_eq!(validate_tx(&tx, &u, &c), Ok(TxValidationCode::MvccReadConflict));
}

#[test]
fn hashed_reads_are_checked() {
    let c = Versions {
        public: vec![],
        hashed: vec![CommittedHashVersion {
            namespace: String::from("cc"),
            collection: String::from("col"),
            key_hash: vec![9, 9],
            version: Ok(Some(h(2, 1))),
        }],
        refused: vec![],
    };
    let mut tx = rw("cc", vec![], vec![]);
    tx.collections = vec![CollHashedRwSet {
        collection: String::from("col"),
        hashed_reads: vec![HashedRead { key_hash: vec![9, 9], version: Some(h(2, 1)) }],
        hashed_writes: vec![],
    }];
    let txs = vec![tx];
    assert_eq!(validate_tx(&txs, &empty_updates(), &c), Ok(TxValidationCode::Valid));
    let mut u = empty_updates();
    u.hashed.push(HashedUpdate {
        namespace: String::from("cc"),
        collection: String::from("col"),
        key_hash: vec![9, 9],
        value_hash: vec![1],
        height: h(1, 0),
    });
    assert_eq!(validate_tx(&txs, &u, &c), Ok(TxValidationCode::MvccReadConflict));
}

#[test]
fn batch_flags_each_transaction_and_keeps_valid_writes() {
    let c = committed(vec![]);
    let txs = vec![
        TxOutcome::Decoded(vec![rw("cc", vec![("x", None)], vec![("x", b"1")])]),
        TxOutcome::NoResponse,
        TxOutcome::Decoded(vec![rw("cc", vec![("x", None)], vec![("y", b"2")])]),
        TxOutcome::BadPayload,
        TxOutcome::BadRwSet,
        TxOutcome::BadWriteset,
        TxOutcome::Decoded(vec![rw("cc", vec![("z", None)], vec![("z", b"3")]), rw("n2", vec![], vec![("w", b"4")])]),
    ];
    let mut b = block_of(7, 7);
    let (updates, height) = validate_and_prepare_batch(&mut b, txs, &c, N_METADATA, FILTER, &codes()).ok().unwrap();
    assert_eq!(filter(&b), vec![0, 16, 11, 255, 255, 24, 0]);
    assert!(others_empty(&b));
    assert_eq!(b.header.as_ref().unwrap().number, 7);
    assert_eq!(b.data.as_ref().unwrap().data.len(), 7);
    let written: Vec<(String, String, Vec<u8>, Height)> = updates
        .writes
        .iter()
        .map(|w| (w.namespace.clone(), w.key.clone(), w.value.clone(), w.height))
        .collect();
    assert_eq!(
        written,
        vec![
            (String::from("cc"), String::from("x"), b"1".to_vec(), h(7, 0)),
            (String::from("cc"), String::from("z"), b"3".to_vec(), h(7, 6)),
            (String::from("n2"), String::from("w"), b"4".to_vec(), h(7, 6)),
        ]
    );
    assert!(updates.hashed.is_empty());
    assert_eq!(height, h(7, 6));
}

fn private_tx(read: Option<Option<Height>>, write: Option<(&[u8], &[u8])>) -> TxOutcome {
    let mut s = rw("cc", vec![], vec![]);
    s.collections = vec![CollHashedRwSet {
        collection: String::from("col"),
        hashed_reads: read.map(|v| vec![HashedRead { key_hash: vec![5], version: v }]).unwrap_or_default(),
        hashed_writes: write
            .map(|(k, v)| vec![HashedWrite { key_hash: k.to_vec(), value_hash: v.to_vec() }])
            .unwrap_or_default(),
    }];
    TxOutcome::Decoded(vec![s])
}

#[test]
fn private_writes_enter_the_batch_and_conflict_with_later_reads() {
    let c = committed(vec![]);
    let txs = vec![
        private_tx(None, Some((&[5], &[42]))),
        private_tx(Some(None), None),
        private_tx(Some(None), Some((&[6], &[43]))),
    ];
    let mut b = block_of(4, 3);
    let (updates, height) = validate_and_prepare_batch(&mut b, txs, &c, N_METADATA, FILTER, &codes()).ok().unwrap();
    assert_eq!(filter(&b), vec![0, 11, 11]);
    assert_eq!(updates.hashed.len(), 1);
    let u = &updates.hashed[0];
    assert_eq!(u.namespace, "cc");
    assert_eq!(u.collection, "col");
    assert_eq!(u.key_hash, vec![5]);
    assert_eq!(u.value_hash, vec![42]);
    assert_eq!(u.height, h(4, 0));
    assert!(updates.writes.is_empty());
    assert_eq!(height, h(4, 2));
}

#[test]
fn a_malformed_transaction_fails_the_block() {
    let c = committed(vec![]);
    let mut b = block_of(1, 3);
    let txs = vec![TxOutcome::NoResponse, TxOutcome::NoProposal, TxOutcome::BadPayload];
    let err = validate_and_prepare_batch(&mut b, txs, &c, N_METADATA, FILTER, &codes()).err().unwrap();
    assert_eq!(err, ValidateError::ProposalNull);
    assert_eq!(err.message(), "proposal is null");
    assert_eq!(filter(&b), vec![16, 0, 0]);
    assert!(others_empty(&b));

    let mut b = block_of(1, 2);
    let txs = vec![TxOutcome::BadWriteset, TxOutcome::NoHeader];
    let err = validate_and_prepare_batch(&mut b, txs, &c, N_METADATA, FILTER, &codes()).err().unwrap();
    assert_eq!(err, ValidateError::TxHeaderNull);
    assert_eq!(err.message(), "transaction header is null");
    assert_eq!(filter(&b), vec![24, 0]);

    let mut b = block_of(1, 1);
    let txs = vec![TxOutcome::Undecodable(String::from("bad wire type"))];
    let err = validate_and_prepare_batch(&mut b, txs, &c, N_METADATA, FILTER, &codes()).err().unwrap();
    assert_eq!(err, ValidateError::TxUndecodable(String::from("bad wire type")));
    assert_eq!(err.message(), "bad wire type");

    let mut b = block_of(1, 2);
    let txs = vec![TxOutcome::BadProposal(String::from("truncated")), TxOutcome::NoProposal];
    let err = validate_and_prepare_batch(&mut b, txs, &c, N_METADATA, FILTER, &codes()).err().unwrap();
    assert_eq!(err, ValidateError::ProposalUndecodable(String::from("truncated")));
    assert_eq!(err.message(), "truncated");
    assert_eq!(filter(&b), vec![0, 0]);

    let mut b = block_of(3, 1);
    let (_, height) =
        validate_and_prepare_batch(&mut b, vec![TxOutcome::NoResponse], &c, N_METADATA, FILTER, &codes()).ok().unwrap();
    assert_eq!(filter(&b), vec![16]);
    assert_eq!(height, h(3, 0));
}

fn failing_db(ns: &str, key: &str, error: &str) -> CommittedVersion {
    CommittedVersion { namespace: ns.to_string(), key: key.to_string(), version: Err(error.to_string()) }
}

#[test]
fn state_database_errors_are_reported_only_when_reached() {
    let c = Versions { public: vec![failing_db("cc", "b", "db down")], hashed: vec![], refused: vec![] };
    let mut u = empty_updates();
    u.writes.push(contract_runtime::ledger::validate::BatchWrite {
        namespace: String::from("cc"),
        key: String::from("a"),
        value: vec![1],
        height: h(5, 0),
    });
    // a conflict met before the failing lookup decides the verdict
    let tx = vec![rw("cc", vec![("a", None), ("b", None)], vec![])];
    assert_eq!(validate_tx(&tx, &u, &c), Ok(TxValidationCode::MvccReadConflict));
    // without it, the lookup's error comes back
    let tx = vec![rw("cc", vec![("b", None), ("a", None)], vec![])];
    assert_eq!(validate_tx(&tx, &u, &c), Err(String::from("db down")));
    // a stale committed version met first is a conflict too
    let c2 = Versions {
        public: vec![
            CommittedVersion { namespace: String::from("cc"), key: String::from("z"), version: Ok(Some(h(1, 1))) },
            failing_db("cc", "b", "db down"),
        ],
        hashed: vec![],
        refused: vec![],
    };
    let tx = vec![rw("cc", vec![("z", None), ("b", None)], vec![])];
    assert_eq!(validate_tx(&tx, &empty_updates(), &c2), Ok(TxValidationCode::MvccReadConflict));
}

#[test]
fn a_state_database_error_fails_the_block_after_earlier_flags() {
    let c = Versions { public: vec![failing_db("cc", "b", "db down")], hashed: vec![], refused: vec![] };
    let txs = vec![
        TxOutcome::NoResponse,
        TxOutcome::Decoded(vec![rw("cc", vec![("b", None)], vec![("b", b"1")])]),
        TxOutcome::BadPayload,
    ];
    let mut b = block_of(8, 3);
    let err = validate_and_prepare_batch(&mut b, txs, &c, N_METADATA, FILTER, &codes()).err().unwrap();
    assert_eq!(err, ValidateError::StateDb(String::from("db down")));
    assert_eq!(err.message(), "db down");
    assert_eq!(filter(&b), vec![16, 0, 0]);
    assert!(others_empty(&b));
}

#[test]
fn blocks_without_header_or_data_are_refused_after_the_reset() {
    let c = committed(vec![]);
    let mut b = Block { header: None, data: Some(BlockData { data: vec![vec![1]] }), metadata: None };
    let err = validate_and_prepare_batch(&mut b, vec![TxOutcome::NoResponse], &c, N_METADATA, FILTER, &codes())
        .err()
        .unwrap();
    assert_eq!(err, ValidateError::HeaderNull);
    assert_eq!(err.message(), "block header is null");
    assert!(b.header.is_none());
    assert_eq!(b.data.as_ref().unwrap().data, vec![vec![1]]);
    assert_eq!(filter(&b), vec![0]);
    assert!(others_empty(&b));

    let mut b = Block {
        header: Some(BlockHeader { number: 9, previous_hash: vec![], data_hash: vec![] }),
        data: None,
        metadata: Some(BlockMetadata { metadata: vec![vec![7, 7]] }),
    };
    let err = validate_and_prepare_batch(&mut b, vec![], &c, N_METADATA, FILTER, &codes()).err().unwrap();
    assert_eq!(err, ValidateError::DataNull);
    assert_eq!(err.message(), "block data is null");
    assert!(filter(&b).is_empty());
    assert!(others_empty(&b));
}

#[test]
fn short_metadata_is_no_error() {
    let c = committed(vec![]);
    let mut b = block_of(2, 1);
    b.metadata = Some(BlockMetadata { metadata: vec![] });
    let (_, height) =
        validate_and_prepare_batch(&mut b, vec![TxOutcome::BadRwSet], &c, N_METADATA, FILTER, &codes()).ok().unwrap();
    assert_eq!(filter(&b), vec![255]);
    assert!(others_empty(&b));
    assert_eq!(height, h(2, 0));
}

#[test]
fn new_blocks_are_empty() {
    let b = new_block(12, vec![1, 2], 5);
    let header = b.header.as_ref().unwrap();
    assert_eq!(header.number, 12);
    assert_eq!(header.previous_hash, vec![1, 2]);
    assert!(header.data_hash.is_empty());
    assert!(b.data.as_ref().unwrap().data.is_empty());
    let meta = &b.metadata.as_ref().unwrap().metadata;
    assert_eq!(meta.len(), 5);
    assert!(meta.iter().all(|m| m.is_empty()));
}

#[test]
fn validation_flags_are_inserted_at_the_filter_index() {
    let mut b: Block = new_block(12, vec![], 5);
    b.data = Some(BlockData { data: vec![vec![1, 2], vec![1, 3], vec![2, 3]] });
    init_tx_validation_flags(&mut b, 5, 2, 0);
    let meta = &b.metadata.as_ref().unwrap().metadata;
    assert_eq!(meta.len(), 6);
    assert_eq!(meta[2], vec![0, 0, 0]);
    assert!(meta.iter().enumerate().all(|(i, m)| i == 2 || m.is_empty()));
    let mut nodata = new_block(1, vec![], 3);
    nodata.data = None;
    init_tx_validation_flags(&mut nodata, 3, 3, 0);
    let meta = &nodata.metadata.as_ref().unwrap().metadata;
    assert_eq!(meta.len(), 4);
    assert!(meta[3].is_empty());
}

#[test]
fn blockutils_it_works() {
    let mut block = new_block(12, vec![], N_METADATA);
    block.data = Some(BlockData { data: vec![vec![1, 2], vec![1, 3], vec![2, 3]] });
    init_tx_validation_flags(&mut block, N_METADATA, FILTER, 0);
    let meta = block.metadata.as_mut().unwrap();
    let v = meta.metadata.get_mut(FILTER).unwrap();
    v[0] = 2;
    v[1] = 4;
    v[2] = 5;
    assert_eq!(filter(&block), vec![2, 4, 5]);
}

#[test]
fn transactions_found_by_id_carry_their_code() {
    assert!(processed_transaction(None, 0).is_none());
    let pt = processed_transaction(Some(vec![7, 8]), 11).unwrap();
    assert_eq!(pt.validation_code, 11);
    let env = pt.transaction_envelope.unwrap();
    assert_eq!(env.payload, vec![7, 8]);
    assert!(env.signature.is_empty());
}

#[test]
fn later_transactions_keep_earlier_verdicts_and_writes() {
    let c = committed(vec![]);
    let make = || {
        vec![
            TxOutcome::Decoded(vec![rw("cc", vec![], vec![("k", b"1")])]),
            TxOutcome::NoResponse,
            TxOutcome::Decoded(vec![rw("cc", vec![("k", None)], vec![("j", b"2")])]),
            TxOutcome::Decoded(vec![rw("cc", vec![], vec![("m", b"3")])]),
        ]
    };
    let mut whole = block_of(2, 4);
    let (all, _) = validate_and_prepare_batch(&mut whole, make(), &c, N_METADATA, FILTER, &codes()).ok().unwrap();
    let mut short = block_of(2, 2);
    let first: Vec<TxOutcome> = make().into_iter().take(2).collect();
    let (some, _) = validate_and_prepare_batch(&mut short, first, &c, N_METADATA, FILTER, &codes()).ok().unwrap();
    assert_eq!(filter(&whole)[..2], filter(&short)[..]);
    assert_eq!(filter(&whole), vec![0, 16, 11, 0]);
    assert_eq!(some.writes.len(), 1);
    assert_eq!(all.writes.len(), 2);
    assert_eq!(all.writes[0].key, some.writes[0].key);
    assert_eq!(all.writes[0].height, some.writes[0].height);
}

#[test]
fn writes_the_state_database_refuses_make_the_write_set_invalid() {
    let mut c = committed(vec![]);
    c.refused = vec![RefusedWrite { key: String::from("bad"), value: b"v".to_vec() }];
    let txs = vec![
        TxOutcome::Decoded(vec![rw("cc", vec![], vec![("ok", b"v")]), rw("n2", vec![], vec![("bad", b"v")])]),
        TxOutcome::Decoded(vec![rw("cc", vec![], vec![("bad", b"w")])]),
    ];
    let mut b = block_of(6, 2);
    let (updates, _) = validate_and_prepare_batch(&mut b, txs, &c, N_METADATA, FILTER, &codes()).ok().unwrap();
    assert_eq!(filter(&b), vec![24, 0]);
    assert_eq!(updates.writes.len(), 1);
    assert_eq!(updates.writes[0].key, "bad");
    assert_eq!(updates.writes[0].height, h(6, 1));
}
