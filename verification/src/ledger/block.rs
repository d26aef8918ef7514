use vstd::prelude::*;

verus! {

/// The header of a block.
pub struct BlockHeader {
    pub number: u64,
    pub previous_hash: Vec<u8>,
    pub data_hash: Vec<u8>,
}

/// The transactions of a block, each as encoded bytes.
pub struct BlockData {
    pub data: Vec<Vec<u8>>,
}

/// The metadata entries of a block, by metadata index.
pub struct BlockMetadata {
    pub metadata: Vec<Vec<u8>>,
}

/// A block of the ledger.
pub struct Block {
    pub header: Option<BlockHeader>,
    pub data: Option<BlockData>,
    pub metadata: Option<BlockMetadata>,
}

/// `metadata` holds `n` entries, all empty.
pub open spec fn all_empty(metadata: Seq<Vec<u8>>, n: nat) -> bool {
    &&& metadata.len() == n
    &&& forall|i: int| 0 <= i < n ==> #[trigger] metadata[i]@.len() == 0
}

/// One empty metadata entry per metadata index.
fn uninit_metadata(n_metadata: usize) -> (res: Vec<Vec<u8>>)
    ensures
        all_empty(res@, n_metadata as nat),
{
    let mut metadata: Vec<Vec<u8>> = Vec::new();
    for i in 0..n_metadata
        invariant
            all_empty(metadata@, i as nat),
    {
        metadata.push(Vec::new());
    }
    metadata
}

/// A new block `seq_num` after the block whose hash is `previous_hash`:
/// no transaction, no data hash, and an empty entry for each of the
/// `n_metadata` metadata indices.
pub fn new_block(seq_num: u64, previous_hash: Vec<u8>, n_metadata: usize) -> (res: Block)
    ensures
        res.header matches Some(h) && h.number == seq_num && h.previous_hash@ == previous_hash@
            && h.data_hash@.len() == 0,
        res.data matches Some(d) && d.data@.len() == 0,
        res.metadata matches Some(m) && all_empty(m.metadata@, n_metadata as nat),
{
    Block {
        header: Some(BlockHeader { number: seq_num, previous_hash, data_hash: Vec::new() }),
        data: Some(BlockData { data: Vec::new() }),
        metadata: Some(BlockMetadata { metadata: uninit_metadata(n_metadata) }),
    }
}

/// The number of transactions of a block: none without data.
pub open spec fn tx_count(block: Block) -> nat {
    match block.data {
        Some(d) => d.data@.len(),
        None => 0,
    }
}

/// `metadata` is the reset metadata of a block: an empty entry for each of
/// the `n_metadata` metadata indices, with the transaction filter `filter`
/// inserted at `filter_index`.
pub open spec fn validated_metadata(
    metadata: Option<BlockMetadata>,
    n_metadata: nat,
    filter_index: int,
    filter: Seq<u8>,
) -> bool {
    metadata matches Some(m) && {
        &&& m.metadata@.len() == n_metadata + 1
        &&& m.metadata@[filter_index]@ == filter
        &&& forall|i: int| 0 <= i < m.metadata@.len() && i != filter_index ==> #[trigger] m.metadata@[i]@.len() == 0
    }
}

/// `count` flags, each `valid`.
pub(crate) fn valid_flags(count: usize, valid: u8) -> (res: Vec<u8>)
    ensures
        res@ == Seq::new(count as nat, |i: int| valid),
{
    let mut flags: Vec<u8> = Vec::new();
    for i in 0..count
        invariant
            flags@ == Seq::new(i as nat, |k: int| valid),
    {
        flags.push(valid);
        assert(flags@ =~= Seq::new((i + 1) as nat, |k: int| valid));
    }
    flags
}

/// Resets the metadata of `block`: an empty entry for each of the
/// `n_metadata` metadata indices, with the transaction filter inserted at
/// `filter_index`, marking every transaction with the flag `valid`. The
/// entries from `filter_index` on move up by one.
pub fn init_tx_validation_flags(block: &mut Block, n_metadata: usize, filter_index: usize, valid: u8)
    requires
        filter_index <= n_metadata,
    ensures
        final(block).header == old(block).header,
        final(block).data == old(block).data,
        validated_metadata(
            final(block).metadata,
            n_metadata as nat,
            filter_index as int,
            Seq::new(tx_count(*old(block)), |i: int| valid),
        ),
{
    let count = match &block.data {
        Some(data) => data.data.len(),
        None => 0,
    };
    let flags = valid_flags(count, valid);
    let mut uninit = uninit_metadata(n_metadata);
    let ghost empty = uninit@;
    uninit.insert(filter_index, flags);
    assert forall|i: int| 0 <= i < uninit@.len() && i != filter_index implies #[trigger] uninit@[i]@.len() == 0 by {
        if i < filter_index {
            assert(uninit@[i] == empty[i]);
        } else {
            assert(uninit@[i] == empty[i - 1]);
        }
    }
    block.metadata = Some(BlockMetadata { metadata: uninit });
}

/// Stores `filter` as the transaction filter of a block whose metadata
/// was reset, leaving everything else as it was.
pub(crate) fn store_filter(block: &mut Block, n_metadata: usize, filter_index: usize, filter: Vec<u8>)
    requires
        filter_index <= n_metadata,
        old(block).metadata matches Some(m) && {
            &&& m.metadata@.len() == n_metadata + 1
            &&& forall|i: int|
                0 <= i < m.metadata@.len() && i != filter_index ==> #[trigger] m.metadata@[i]@.len() == 0
        },
    ensures
        final(block).header == old(block).header,
        final(block).data == old(block).data,
        validated_metadata(final(block).metadata, n_metadata as nat, filter_index as int, filter@),
{
    match &mut block.metadata {
        Some(m) => {
            m.metadata[filter_index] = filter;
        },
        None => {},
    }
}

/// A transaction as carried in a block: its payload and signature.
pub struct Envelope {
    pub payload: Vec<u8>,
    pub signature: Vec<u8>,
}

/// A transaction looked up by id, with the verdict it got.
pub struct ProcessedTransaction {
    pub transaction_envelope: Option<Envelope>,
    pub validation_code: i32,
}

/// The answer to a lookup of a transaction by id, from the encoded
/// transaction found (`None`: not found) and its validation code: not
/// found gives `None`; otherwise an envelope carrying the encoded
/// transaction as payload, with no signature, and the code.
pub fn processed_transaction(found: Option<Vec<u8>>, validation_code: i32) -> (res: Option<ProcessedTransaction>)
    ensures
        found is None <==> res is None,
        found matches Some(bytes) ==> (res matches Some(pt) && pt.validation_code == validation_code
            && (pt.transaction_envelope matches Some(env) && env.payload@ == bytes@ && env.signature@.len() == 0)),
{
    match found {
        None => None,
        Some(payload) => Some(
            ProcessedTransaction {
                transaction_envelope: Some(Envelope { payload, signature: Vec::new() }),
                validation_code,
            },
        ),
    }
}

} // verus!
