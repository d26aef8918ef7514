use vstd::prelude::*;

use crate::text::string_from_utf8;
use vstd::utf8::{decode_utf8, encode_utf8, encode_utf8_decode_utf8, encode_utf8_valid_utf8, valid_utf8};

verus! {

/// The first byte of every key under which a ledger id is recorded: `l`.
pub const LEDGER_KEY_PREFIX: u8 = 0x6cu8;

/// The key under which `ledger_id` is recorded: the prefix byte followed
/// by the UTF-8 bytes of the id.
pub open spec fn ledger_key(ledger_id: Seq<char>) -> Seq<u8> {
    seq![LEDGER_KEY_PREFIX] + encode_utf8(ledger_id)
}

/// The keys of a sequence of ledger ids, in the same order.
pub open spec fn ledger_keys(ids: Seq<Seq<char>>) -> Seq<Seq<u8>> {
    ids.map_values(|id: Seq<char>| ledger_key(id))
}

/// Whether a stored key belongs to the ledger id records.
pub open spec fn is_ledger_key(key: Seq<u8>) -> bool {
    key.len() > 0 && key[0] == LEDGER_KEY_PREFIX
}

/// All of the first `n` keys are ledger id records.
pub open spec fn leading_ledger_keys(keys: Seq<Seq<u8>>, n: int) -> bool {
    forall|j: int| 0 <= j < n ==> #[trigger] is_ledger_key(keys[j])
}

/// Keys read in order, from the first key not below the prefix, can be
/// listed: each key up to the first one outside the records is non-empty,
/// and each record's id bytes are UTF-8.
pub open spec fn listable_keys(keys: Seq<Seq<u8>>) -> bool {
    forall|i: int|
        0 <= i < keys.len() && leading_ledger_keys(keys, i) ==> {
            &&& #[trigger] keys[i].len() > 0
            &&& keys[i][0] == LEDGER_KEY_PREFIX ==> valid_utf8(keys[i].drop_first())
        }
}

/// The key under which `ledger_id` is recorded.
pub fn encode_ledger_key(ledger_id: &str) -> (res: Vec<u8>)
    ensures
        res@ == ledger_key(ledger_id@),
{
    let bytes = ledger_id.as_bytes();
    let mut buf: Vec<u8> = Vec::new();
    buf.push(LEDGER_KEY_PREFIX);
    let n = bytes.len();
    for i in 0..n
        invariant
            n == bytes@.len(),
            bytes@ == encode_utf8(ledger_id@),
            buf@ == seq![LEDGER_KEY_PREFIX] + bytes@.take(i as int),
    {
        buf.push(bytes[i]);
        assert(bytes@.take(i + 1) == bytes@.take(i as int).push(bytes@[i as int]));
    }
    assert(bytes@.take(n as int) == bytes@);
    buf
}

/// The ledger ids recorded in `keys`, which are read in key order from the
/// first key not below the prefix: the ids of the leading run of ledger id
/// records, in order, stopping at the first key outside the records.
pub fn active_ledger_ids(keys: &Vec<Vec<u8>>) -> (res: Vec<String>)
    requires
        listable_keys(keys@.map_values(|k: Vec<u8>| k@)),
    ensures
        res.len() <= keys.len(),
        forall|i: int|
            0 <= i < res.len() ==> {
                &&& is_ledger_key(#[trigger] keys@[i]@)
                &&& res@[i]@ == decode_utf8(keys@[i]@.drop_first())
            },
        res.len() < keys.len() ==> !is_ledger_key(keys@[res.len() as int]@),
{
    let ghost kv = keys@.map_values(|k: Vec<u8>| k@);
    let mut res: Vec<String> = Vec::new();
    let n = keys.len();
    let mut i: usize = 0;
    while i < n
        invariant
            n == keys.len(),
            kv == keys@.map_values(|k: Vec<u8>| k@),
            listable_keys(kv),
            i <= n,
            res.len() == i,
            leading_ledger_keys(kv, i as int),
            forall|j: int|
                0 <= j < i ==> #[trigger] res@[j]@ == decode_utf8(keys@[j]@.drop_first()),
        ensures
            i == n || !is_ledger_key(kv[i as int]),
        decreases n - i,
    {
        let key = &keys[i];
        assert(kv[i as int] == key@);
        if key[0] != LEDGER_KEY_PREFIX {
            break;
        }
        let mut id_bytes: Vec<u8> = Vec::new();
        let m = key.len();
        for j in 1..m
            invariant
                m == key@.len(),
                1 <= m,
                id_bytes@ == key@.subrange(1, j as int),
        {
            id_bytes.push(key[j]);
            assert(key@.subrange(1, j + 1) == key@.subrange(1, j as int).push(key@[j as int]));
        }
        assert(id_bytes@ == key@.drop_first());
        let id = string_from_utf8(id_bytes).unwrap();
        res.push(id);
        proof {
            assert forall|j: int| 0 <= j < i + 1 implies #[trigger] is_ledger_key(kv[j]) by {
                if j < i {
                    assert(leading_ledger_keys(kv, i as int));
                }
            }
        }
        i = i + 1;
    }
    proof {
        assert forall|j: int| 0 <= j < res.len() implies is_ledger_key(#[trigger] keys@[j]@) by {
            assert(kv[j] == keys@[j]@);
        }
        if res.len() < keys.len() {
            assert(kv[res.len() as int] == keys@[res.len() as int]@);
        }
    }
    res
}

/// A recorded key lists back as the id it was made from: the key of any
/// ledger id is a ledger id record whose id bytes are UTF-8 and decode to
/// that id.
pub proof fn lemma_ledger_key_roundtrip(ledger_id: Seq<char>)
    ensures
        is_ledger_key(ledger_key(ledger_id)),
        valid_utf8(ledger_key(ledger_id).drop_first()),
        decode_utf8(ledger_key(ledger_id).drop_first()) == ledger_id,
{
    let k = ledger_key(ledger_id);
    assert(k.drop_first() =~= encode_utf8(ledger_id));
    encode_utf8_valid_utf8(ledger_id);
    encode_utf8_decode_utf8(ledger_id);
}

/// Different ledger ids are recorded under different keys.
pub proof fn lemma_ledger_key_injective(id1: Seq<char>, id2: Seq<char>)
    requires
        id1 != id2,
    ensures
        ledger_key(id1) != ledger_key(id2),
{
    lemma_ledger_key_roundtrip(id1);
    lemma_ledger_key_roundtrip(id2);
}

/// Keys made from ledger ids are always listable, and list back as
/// those ids, in the same order.
pub proof fn lemma_listing_recorded_ids(ids: Seq<Seq<char>>)
    ensures
        listable_keys(ledger_keys(ids)),
        forall|i: int|
            0 <= i < ids.len() ==> {
                &&& is_ledger_key(#[trigger] ledger_keys(ids)[i])
                &&& decode_utf8(ledger_keys(ids)[i].drop_first()) == ids[i]
            },
{
    let keys = ledger_keys(ids);
    assert forall|i: int| 0 <= i < keys.len() implies is_ledger_key(#[trigger] keys[i])
        && valid_utf8(keys[i].drop_first()) && decode_utf8(keys[i].drop_first()) == ids[i] by {
        lemma_ledger_key_roundtrip(ids[i]);
    }
}

} // verus!
