//! What checking a transaction's reads decides, stated over the reads, the
//! pending writes and what the state database reports.
use vstd::prelude::*;

use crate::ledger::validate::{
    colls_check, committed_hash_version, committed_version, hashed_read_check, hashed_reads_check, ns_check,
    read_check, read_view, reads_check, tx_check, Check, CollHashedRwSet, CommittedHashVersion, CommittedVersion,
    HashedRead, Height, KvRead, NsRwSet, UpdatesView, Versions, block_run, writes_refused, TxOutcome,
    TxValidationCode, ValidateFailure, writes_at, hashed_writes_at, WriteView, ns_writes, filter_after, CodeBytes,
};

verus! {

/// Two versions agree when both are absent, or both are present with the
/// same block number and the same transaction number.
pub open spec fn versions_agree(a: Option<Height>, b: Option<Height>) -> bool {
    ||| a is None && b is None
    ||| a is Some && b is Some && a->0.block_num == b->0.block_num && a->0.tx_num == b->0.tx_num
}

/// A public read is judged as follows. When an earlier transaction of the
/// block wrote the same key in the same namespace, it conflicts. Otherwise
/// the state database is asked: its error comes back as the failure, and
/// a committed version passes exactly when it agrees, block number and
/// transaction number, with the version read. In particular a write of the
/// same key in another namespace never makes the read conflict.
pub proof fn lemma_read_check(ns: Seq<char>, r: KvRead, u: UpdatesView, c: Versions)
    ensures
        (exists|k: int| 0 <= k < u.writes.len() && #[trigger] u.writes[k].namespace == ns && u.writes[k].key == r.key@)
            ==> read_check(ns, r, u, c) == Check::Conflict,
        !(exists|k: int| 0 <= k < u.writes.len() && #[trigger] u.writes[k].namespace == ns && u.writes[k].key == r.key@)
            ==> match committed_version(c.public@, ns, r.key@) {
            Err(e) => read_check(ns, r, u, c) == Check::Failed(e),
            Ok(v) => read_check(ns, r, u, c) == (if versions_agree(v, r.version) {
                Check::Pass
            } else {
                Check::Conflict
            }),
        },
{
}

/// A hashed read of collection `coll` is judged as follows. When an
/// earlier transaction of the block wrote the same key hash in the same
/// collection of the same namespace, it conflicts. Otherwise the state
/// database is asked: its error comes back as the failure, and a committed
/// version passes exactly when it agrees with the version read. A write of
/// the same key hash in another collection never makes the read conflict.
pub proof fn lemma_hashed_read_check(ns: Seq<char>, coll: Seq<char>, r: HashedRead, u: UpdatesView, c: Versions)
    ensures
        (exists|k: int|
            0 <= k < u.hashed.len() && #[trigger] u.hashed[k].namespace == ns && u.hashed[k].collection == coll
                && u.hashed[k].key_hash == r.key_hash@) ==> hashed_read_check(ns, coll, r, u, c) == Check::Conflict,
        !(exists|k: int|
            0 <= k < u.hashed.len() && #[trigger] u.hashed[k].namespace == ns && u.hashed[k].collection == coll
                && u.hashed[k].key_hash == r.key_hash@) ==> match committed_hash_version(
            c.hashed@,
            ns,
            coll,
            r.key_hash@,
        ) {
            Err(e) => hashed_read_check(ns, coll, r, u, c) == Check::Failed(e),
            Ok(v) => hashed_read_check(ns, coll, r, u, c) == (if versions_agree(v, r.version) {
                Check::Pass
            } else {
                Check::Conflict
            }),
        },
{
}

/// The state database's answer for `key` in `ns` is its first entry for
/// that namespace and key; a key with no entry has no committed version.
pub proof fn lemma_committed_version(vs: Seq<CommittedVersion>, ns: Seq<char>, key: Seq<char>)
    ensures
        (forall|k: int| 0 <= k < vs.len() ==> !(#[trigger] vs[k].namespace@ == ns && vs[k].key@ == key))
            ==> committed_version(vs, ns, key) == Ok::<Option<Height>, Seq<char>>(None),
        forall|k: int|
            0 <= k < vs.len() && #[trigger] vs[k].namespace@ == ns && vs[k].key@ == key && (forall|j: int|
                0 <= j < k ==> !(vs[j].namespace@ == ns && vs[j].key@ == key)) ==> committed_version(vs, ns, key)
                == read_view(vs[k].version),
    decreases vs.len(),
{
    if vs.len() > 0 {
        let rest = vs.drop_first();
        lemma_committed_version(rest, ns, key);
        assert forall|k: int| 0 <= k < rest.len() implies rest[k] == vs[k + 1] by {}
        if !(vs[0].namespace@ == ns && vs[0].key@ == key) {
            assert forall|k: int|
                0 <= k < vs.len() && #[trigger] vs[k].namespace@ == ns && vs[k].key@ == key && (forall|j: int|
                    0 <= j < k ==> !(vs[j].namespace@ == ns && vs[j].key@ == key)) implies committed_version(
                vs,
                ns,
                key,
            ) == read_view(vs[k].version) by {
                assert(rest[k - 1] == vs[k]);
                assert forall|j: int| 0 <= j < k - 1 implies !(rest[j].namespace@ == ns && rest[j].key@ == key) by {
                    assert(rest[j] == vs[j + 1]);
                }
            }
            if forall|k: int| 0 <= k < vs.len() ==> !(#[trigger] vs[k].namespace@ == ns && vs[k].key@ == key) {
                assert forall|k: int| 0 <= k < rest.len() implies !(#[trigger] rest[k].namespace@ == ns
                    && rest[k].key@ == key) by {
                    assert(rest[k] == vs[k + 1]);
                }
            }
        } else {
            assert forall|k: int|
                0 <= k < vs.len() && #[trigger] vs[k].namespace@ == ns && vs[k].key@ == key && (forall|j: int|
                    0 <= j < k ==> !(vs[j].namespace@ == ns && vs[j].key@ == key)) implies committed_version(
                vs,
                ns,
                key,
            ) == read_view(vs[k].version) by {
                if k > 0 {
                    assert(!(vs[0].namespace@ == ns && vs[0].key@ == key));
                }
            }
        }
    }
}

/// The same for the private key `hash` of collection `coll` in `ns`.
pub proof fn lemma_committed_hash_version(
    vs: Seq<CommittedHashVersion>,
    ns: Seq<char>,
    coll: Seq<char>,
    hash: Seq<u8>,
)
    ensures
        (forall|k: int|
            0 <= k < vs.len() ==> !(#[trigger] vs[k].namespace@ == ns && vs[k].collection@ == coll && vs[k].key_hash@
                == hash)) ==> committed_hash_version(vs, ns, coll, hash) == Ok::<Option<Height>, Seq<char>>(None),
        forall|k: int|
            0 <= k < vs.len() && #[trigger] vs[k].namespace@ == ns && vs[k].collection@ == coll && vs[k].key_hash@
                == hash && (forall|j: int|
                0 <= j < k ==> !(vs[j].namespace@ == ns && vs[j].collection@ == coll && vs[j].key_hash@ == hash))
                ==> committed_hash_version(vs, ns, coll, hash) == read_view(vs[k].version),
    decreases vs.len(),
{
    if vs.len() > 0 {
        let rest = vs.drop_first();
        lemma_committed_hash_version(rest, ns, coll, hash);
        if !(vs[0].namespace@ == ns && vs[0].collection@ == coll && vs[0].key_hash@ == hash) {
            assert forall|k: int|
                0 <= k < vs.len() && #[trigger] vs[k].namespace@ == ns && vs[k].collection@ == coll
                    && vs[k].key_hash@ == hash && (forall|j: int|
                    0 <= j < k ==> !(vs[j].namespace@ == ns && vs[j].collection@ == coll && vs[j].key_hash@ == hash))
                    implies committed_hash_version(vs, ns, coll, hash) == read_view(vs[k].version) by {
                assert(rest[k - 1] == vs[k]);
                assert forall|j: int| 0 <= j < k - 1 implies !(rest[j].namespace@ == ns && rest[j].collection@ == coll
                    && rest[j].key_hash@ == hash) by {
                    assert(rest[j] == vs[j + 1]);
                }
            }
            if forall|k: int|
                0 <= k < vs.len() ==> !(#[trigger] vs[k].namespace@ == ns && vs[k].collection@ == coll
                    && vs[k].key_hash@ == hash) {
                assert forall|k: int| 0 <= k < rest.len() implies !(#[trigger] rest[k].namespace@ == ns
                    && rest[k].collection@ == coll && rest[k].key_hash@ == hash) by {
                    assert(rest[k] == vs[k + 1]);
                }
            }
        } else {
            assert forall|k: int|
                0 <= k < vs.len() && #[trigger] vs[k].namespace@ == ns && vs[k].collection@ == coll
                    && vs[k].key_hash@ == hash && (forall|j: int|
                    0 <= j < k ==> !(vs[j].namespace@ == ns && vs[j].collection@ == coll && vs[j].key_hash@ == hash))
                    implies committed_hash_version(vs, ns, coll, hash) == read_view(vs[k].version) by {
                if k > 0 {
                    assert(!(vs[0].namespace@ == ns && vs[0].collection@ == coll && vs[0].key_hash@ == hash));
                }
            }
        }
    }
}

/// The reads of a namespace pass exactly when each of them passes;
/// otherwise the outcome is that of the first read that does not pass.
pub proof fn lemma_reads_check(ns: Seq<char>, reads: Seq<KvRead>, u: UpdatesView, c: Versions)
    ensures
        reads_check(ns, reads, u, c) is Pass <==> forall|j: int|
            0 <= j < reads.len() ==> #[trigger] read_check(ns, reads[j], u, c) is Pass,
        !(reads_check(ns, reads, u, c) is Pass) ==> exists|j: int|
            0 <= j < reads.len() && #[trigger] read_check(ns, reads[j], u, c) == reads_check(ns, reads, u, c)
                && forall|i: int| 0 <= i < j ==> read_check(ns, reads[i], u, c) is Pass,
    decreases reads.len(),
{
    if reads.len() > 0 {
        let rest = reads.drop_first();
        lemma_reads_check(ns, rest, u, c);
        if read_check(ns, reads[0], u, c) is Pass {
            if reads_check(ns, rest, u, c) is Pass {
                assert forall|j: int| 0 <= j < reads.len() implies #[trigger] read_check(ns, reads[j], u, c) is Pass by {
                    if j > 0 {
                        assert(reads[j] == rest[j - 1]);
                    }
                }
            } else {
                let j = choose|j: int|
                    0 <= j < rest.len() && #[trigger] read_check(ns, rest[j], u, c) == reads_check(ns, rest, u, c)
                        && forall|i: int| 0 <= i < j ==> read_check(ns, rest[i], u, c) is Pass;
                assert(reads[j + 1] == rest[j]);
                assert forall|i: int| 0 <= i < j + 1 implies read_check(ns, reads[i], u, c) is Pass by {
                    if i > 0 {
                        assert(reads[i] == rest[i - 1]);
                    }
                }
            }
        }
    }
}

/// The hashed reads of a collection pass exactly when each of them
/// passes; otherwise the outcome is that of the first that does not.
pub proof fn lemma_hashed_reads_check(
    ns: Seq<char>,
    coll: Seq<char>,
    reads: Seq<HashedRead>,
    u: UpdatesView,
    c: Versions,
)
    ensures
        hashed_reads_check(ns, coll, reads, u, c) is Pass <==> forall|j: int|
            0 <= j < reads.len() ==> #[trigger] hashed_read_check(ns, coll, reads[j], u, c) is Pass,
        !(hashed_reads_check(ns, coll, reads, u, c) is Pass) ==> exists|j: int|
            0 <= j < reads.len() && #[trigger] hashed_read_check(ns, coll, reads[j], u, c) == hashed_reads_check(
                ns,
                coll,
                reads,
                u,
                c,
            ) && forall|i: int| 0 <= i < j ==> hashed_read_check(ns, coll, reads[i], u, c) is Pass,
    decreases reads.len(),
{
    if reads.len() > 0 {
        let rest = reads.drop_first();
        lemma_hashed_reads_check(ns, coll, rest, u, c);
        if hashed_read_check(ns, coll, reads[0], u, c) is Pass {
            if hashed_reads_check(ns, coll, rest, u, c) is Pass {
                assert forall|j: int| 0 <= j < reads.len() implies #[trigger] hashed_read_check(
                    ns,
                    coll,
                    reads[j],
                    u,
                    c,
                ) is Pass by {
                    if j > 0 {
                        assert(reads[j] == rest[j - 1]);
                    }
                }
            } else {
                let j = choose|j: int|
                    0 <= j < rest.len() && #[trigger] hashed_read_check(ns, coll, rest[j], u, c) == hashed_reads_check(
                        ns,
                        coll,
                        rest,
                        u,
                        c,
                    ) && forall|i: int| 0 <= i < j ==> hashed_read_check(ns, coll, rest[i], u, c) is Pass;
                assert(reads[j + 1] == rest[j]);
                assert forall|i: int| 0 <= i < j + 1 implies hashed_read_check(ns, coll, reads[i], u, c) is Pass by {
                    if i > 0 {
                        assert(reads[i] == rest[i - 1]);
                    }
                }
            }
        }
    }
}

/// Whether hashed read `m` of collection `k` of `colls`, in namespace
/// `ns`, passes.
pub open spec fn hashed_passes(ns: Seq<char>, colls: Seq<CollHashedRwSet>, k: int, m: int, u: UpdatesView, c: Versions) -> bool {
    hashed_read_check(ns, colls[k].collection@, colls[k].hashed_reads@[m], u, c) is Pass
}

/// The hashed reads of a namespace's collections pass exactly when each
/// of them passes; otherwise the outcome is that of one that does not.
pub proof fn lemma_colls_check(ns: Seq<char>, colls: Seq<CollHashedRwSet>, u: UpdatesView, c: Versions)
    ensures
        colls_check(ns, colls, u, c) is Pass <==> forall|k: int, m: int|
            0 <= k < colls.len() && 0 <= m < colls[k].hashed_reads@.len() ==> #[trigger] hashed_passes(ns, colls, k, m, u, c),
        !(colls_check(ns, colls, u, c) is Pass) ==> exists|k: int, m: int|
            0 <= k < colls.len() && 0 <= m < colls[k].hashed_reads@.len() && #[trigger] hashed_read_check(
                ns,
                colls[k].collection@,
                colls[k].hashed_reads@[m],
                u,
                c,
            ) == colls_check(ns, colls, u, c),
    decreases colls.len(),
{
    if colls.len() > 0 {
        let rest = colls.drop_first();
        lemma_colls_check(ns, rest, u, c);
        lemma_hashed_reads_check(ns, colls[0].collection@, colls[0].hashed_reads@, u, c);
        assert forall|k: int| 0 < k < colls.len() implies #[trigger] colls[k] == rest[k - 1] by {}
        if hashed_reads_check(ns, colls[0].collection@, colls[0].hashed_reads@, u, c) is Pass {
            if colls_check(ns, rest, u, c) is Pass {
                assert forall|k: int, m: int|
                    0 <= k < colls.len() && 0 <= m < colls[k].hashed_reads@.len() implies #[trigger] hashed_passes(
                    ns,
                    colls,
                    k,
                    m,
                    u,
                    c,
                ) by {
                    if k > 0 {
                        assert(hashed_passes(ns, rest, k - 1, m, u, c));
                    } else {
                        assert(hashed_read_check(ns, colls[0].collection@, colls[0].hashed_reads@[m], u, c) is Pass);
                    }
                }
            } else {
                let (k, m) = choose|k: int, m: int|
                    0 <= k < rest.len() && 0 <= m < rest[k].hashed_reads@.len() && #[trigger] hashed_read_check(
                        ns,
                        rest[k].collection@,
                        rest[k].hashed_reads@[m],
                        u,
                        c,
                    ) == colls_check(ns, rest, u, c);
                assert(colls[k + 1] == rest[k]);
                assert(!hashed_passes(ns, colls, k + 1, m, u, c));
            }
        } else {
            let m = choose|m: int|
                0 <= m < colls[0].hashed_reads@.len() && #[trigger] hashed_read_check(
                    ns,
                    colls[0].collection@,
                    colls[0].hashed_reads@[m],
                    u,
                    c,
                ) == hashed_reads_check(ns, colls[0].collection@, colls[0].hashed_reads@, u, c) && forall|i: int|
                    0 <= i < m ==> hashed_read_check(ns, colls[0].collection@, colls[0].hashed_reads@[i], u, c) is Pass;
            assert(!hashed_passes(ns, colls, 0, m, u, c));
        }
    }
}

/// The reads of one namespace pass exactly when each public read and each
/// hashed read passes; otherwise the outcome is that of one that does not.
pub proof fn lemma_ns_check(s: NsRwSet, u: UpdatesView, c: Versions)
    ensures
        ns_check(s, u, c) is Pass <==> (forall|j: int|
            0 <= j < s.reads@.len() ==> #[trigger] read_check(s.namespace@, s.reads@[j], u, c) is Pass) && (forall|
            k: int,
            m: int,
        |
            0 <= k < s.collections@.len() && 0 <= m < s.collections@[k].hashed_reads@.len() ==> #[trigger] hashed_passes(
                s.namespace@,
                s.collections@,
                k,
                m,
                u,
                c,
            )),
        !(ns_check(s, u, c) is Pass) ==> (exists|j: int|
            0 <= j < s.reads@.len() && #[trigger] read_check(s.namespace@, s.reads@[j], u, c) == ns_check(s, u, c))
            || (exists|k: int, m: int|
            0 <= k < s.collections@.len() && 0 <= m < s.collections@[k].hashed_reads@.len() && #[trigger] hashed_read_check(
                s.namespace@,
                s.collections@[k].collection@,
                s.collections@[k].hashed_reads@[m],
                u,
                c,
            ) == ns_check(s, u, c)),
{
    lemma_reads_check(s.namespace@, s.reads@, u, c);
    lemma_colls_check(s.namespace@, s.collections@, u, c);
}

/// Whether every read of `rw`, public and hashed, passes.
pub open spec fn all_reads_pass(rw: Seq<NsRwSet>, u: UpdatesView, c: Versions) -> bool {
    &&& forall|i: int, j: int|
        0 <= i < rw.len() && 0 <= j < rw[i].reads@.len() ==> #[trigger] read_check(
            rw[i].namespace@,
            rw[i].reads@[j],
            u,
            c,
        ) is Pass
    &&& forall|i: int, k: int, m: int|
        0 <= i < rw.len() && 0 <= k < rw[i].collections@.len() && 0 <= m < rw[i].collections@[k].hashed_reads@.len()
            ==> #[trigger] hashed_passes(rw[i].namespace@, rw[i].collections@, k, m, u, c)
}

/// Whether `r` is the outcome of one of the reads of `rw`.
pub open spec fn some_read_gives(rw: Seq<NsRwSet>, u: UpdatesView, c: Versions, r: Check) -> bool {
    ||| exists|i: int, j: int|
        0 <= i < rw.len() && 0 <= j < rw[i].reads@.len() && #[trigger] read_check(rw[i].namespace@, rw[i].reads@[j], u, c)
            == r
    ||| exists|i: int, k: int, m: int|
        0 <= i < rw.len() && 0 <= k < rw[i].collections@.len() && 0 <= m < rw[i].collections@[k].hashed_reads@.len()
            && #[trigger] hashed_read_check(
            rw[i].namespace@,
            rw[i].collections@[k].collection@,
            rw[i].collections@[k].hashed_reads@[m],
            u,
            c,
        ) == r
}

/// A transaction's reads pass exactly when every public and hashed read
/// passes; otherwise the verdict (a conflict, or the state database's
/// failure) is that of one of its reads.
pub proof fn lemma_tx_check(rw: Seq<NsRwSet>, u: UpdatesView, c: Versions)
    ensures
        tx_check(rw, u, c) is Pass <==> all_reads_pass(rw, u, c),
        !(tx_check(rw, u, c) is Pass) ==> some_read_gives(rw, u, c, tx_check(rw, u, c)),
    decreases rw.len(),
{
    if rw.len() > 0 {
        let rest = rw.drop_first();
        lemma_tx_check(rest, u, c);
        lemma_ns_check(rw[0], u, c);
        assert forall|i: int| 0 < i < rw.len() implies #[trigger] rw[i] == rest[i - 1] by {}
        let r = tx_check(rw, u, c);
        if ns_check(rw[0], u, c) is Pass {
            if tx_check(rest, u, c) is Pass {
                assert forall|i: int, j: int|
                    0 <= i < rw.len() && 0 <= j < rw[i].reads@.len() implies #[trigger] read_check(
                    rw[i].namespace@,
                    rw[i].reads@[j],
                    u,
                    c,
                ) is Pass by {
                    if i > 0 {
                        assert(rw[i] == rest[i - 1]);
                        assert(read_check(rest[i - 1].namespace@, rest[i - 1].reads@[j], u, c) is Pass);
                    }
                }
                assert forall|i: int, k: int, m: int|
                    0 <= i < rw.len() && 0 <= k < rw[i].collections@.len() && 0 <= m
                        < rw[i].collections@[k].hashed_reads@.len() implies #[trigger] hashed_passes(
                    rw[i].namespace@,
                    rw[i].collections@,
                    k,
                    m,
                    u,
                    c,
                ) by {
                    if i > 0 {
                        assert(rw[i] == rest[i - 1]);
                        assert(hashed_passes(rest[i - 1].namespace@, rest[i - 1].collections@, k, m, u, c));
                    }
                }
            } else {
                assert(r == tx_check(rest, u, c));
                if exists|i: int, j: int|
                    0 <= i < rest.len() && 0 <= j < rest[i].reads@.len() && #[trigger] read_check(
                        rest[i].namespace@,
                        rest[i].reads@[j],
                        u,
                        c,
                    ) == r {
                    let (i, j) = choose|i: int, j: int|
                        0 <= i < rest.len() && 0 <= j < rest[i].reads@.len() && #[trigger] read_check(
                            rest[i].namespace@,
                            rest[i].reads@[j],
                            u,
                            c,
                        ) == r;
                    assert(rw[i + 1] == rest[i]);
                    assert(read_check(rw[i + 1].namespace@, rw[i + 1].reads@[j], u, c) == r);
                } else {
                    let (i, k, m) = choose|i: int, k: int, m: int|
                        0 <= i < rest.len() && 0 <= k < rest[i].collections@.len() && 0 <= m
                            < rest[i].collections@[k].hashed_reads@.len() && #[trigger] hashed_read_check(
                            rest[i].namespace@,
                            rest[i].collections@[k].collection@,
                            rest[i].collections@[k].hashed_reads@[m],
                            u,
                            c,
                        ) == r;
                    assert(rw[i + 1] == rest[i]);
                    assert(hashed_read_check(
                        rw[i + 1].namespace@,
                        rw[i + 1].collections@[k].collection@,
                        rw[i + 1].collections@[k].hashed_reads@[m],
                        u,
                        c,
                    ) == r);
                    assert(!hashed_passes(rw[i + 1].namespace@, rw[i + 1].collections@, k, m, u, c));
                }
            }
        } else {
            assert(r == ns_check(rw[0], u, c));
            if exists|j: int|
                0 <= j < rw[0].reads@.len() && #[trigger] read_check(rw[0].namespace@, rw[0].reads@[j], u, c) == r {
                let j = choose|j: int|
                    0 <= j < rw[0].reads@.len() && #[trigger] read_check(rw[0].namespace@, rw[0].reads@[j], u, c) == r;
                assert(read_check(rw[0].namespace@, rw[0].reads@[j], u, c) == r);
            } else {
                let (k, m) = choose|k: int, m: int|
                    0 <= k < rw[0].collections@.len() && 0 <= m < rw[0].collections@[k].hashed_reads@.len()
                        && #[trigger] hashed_read_check(
                        rw[0].namespace@,
                        rw[0].collections@[k].collection@,
                        rw[0].collections@[k].hashed_reads@[m],
                        u,
                        c,
                    ) == r;
                assert(!hashed_passes(rw[0].namespace@, rw[0].collections@, k, m, u, c));
            }
        }
    }
}

/// At most one verdict per transaction, and one for every transaction
/// when nothing stopped the validation.
proof fn lemma_verdict_count(number: u64, txs: Seq<TxOutcome>, c: Versions)
    ensures
        block_run(number, txs, c).verdicts.len() <= txs.len(),
        block_run(number, txs, c).failure is None ==> block_run(number, txs, c).verdicts.len() == txs.len(),
    decreases txs.len(),
{
    if txs.len() > 0 {
        lemma_verdict_count(number, txs.drop_last(), c);
    }
}

/// The verdict each judged transaction of a block gets, from how it
/// decoded and from its reads against the batch of the valid transactions
/// before it: no response gives `NilTxaction`; an undecodable payload or
/// read-write set `InvalidOtherReason`; a bad write set, or a write the
/// state database refuses, `InvalidWriteset`; otherwise the transaction is
/// valid exactly when every one of its reads passes, and a read conflict
/// when not. A transaction whose decoding stopped short never gets one.
pub proof fn lemma_verdicts(number: u64, txs: Seq<TxOutcome>, c: Versions)
    ensures
        forall|i: int|
            0 <= i < block_run(number, txs, c).verdicts.len() ==> {
                let v = #[trigger] block_run(number, txs, c).verdicts[i];
                let before = block_run(number, txs.take(i), c).updates;
                &&& 0 <= i < txs.len()
                &&& !(txs[i] is Undecodable || txs[i] is NoProposal || txs[i] is BadProposal || txs[i] is NoHeader)
                &&& txs[i] is NoResponse ==> v == TxValidationCode::NilTxaction
                &&& (txs[i] is BadPayload || txs[i] is BadRwSet) ==> v == TxValidationCode::InvalidOtherReason
                &&& txs[i] is BadWriteset ==> v == TxValidationCode::InvalidWriteset
                &&& txs[i] matches TxOutcome::Decoded(rw) ==> {
                    &&& writes_refused(rw@, c) ==> v == TxValidationCode::InvalidWriteset
                    &&& !writes_refused(rw@, c) ==> (v == TxValidationCode::Valid <==> all_reads_pass(rw@, before, c))
                    &&& !writes_refused(rw@, c) && v != TxValidationCode::Valid ==> v
                        == TxValidationCode::MvccReadConflict
                }
            },
    decreases txs.len(),
{
    if txs.len() > 0 {
        let prev_txs = txs.drop_last();
        lemma_verdicts(number, prev_txs, c);
        lemma_verdict_count(number, prev_txs, c);
        let prev = block_run(number, prev_txs, c);
        let cur = block_run(number, txs, c);
        let last = txs.len() - 1;
        assert(txs.take(last) =~= prev_txs);
        if let TxOutcome::Decoded(rw) = txs.last() {
            lemma_tx_check(rw@, prev.updates, c);
        }
        assert forall|i: int| 0 <= i < cur.verdicts.len() implies {
            let v = #[trigger] cur.verdicts[i];
            let before = block_run(number, txs.take(i), c).updates;
            &&& 0 <= i < txs.len()
            &&& !(txs[i] is Undecodable || txs[i] is NoProposal || txs[i] is BadProposal || txs[i] is NoHeader)
            &&& txs[i] is NoResponse ==> v == TxValidationCode::NilTxaction
            &&& (txs[i] is BadPayload || txs[i] is BadRwSet) ==> v == TxValidationCode::InvalidOtherReason
            &&& txs[i] is BadWriteset ==> v == TxValidationCode::InvalidWriteset
            &&& txs[i] matches TxOutcome::Decoded(rw) ==> {
                &&& writes_refused(rw@, c) ==> v == TxValidationCode::InvalidWriteset
                &&& !writes_refused(rw@, c) ==> (v == TxValidationCode::Valid <==> all_reads_pass(rw@, before, c))
                &&& !writes_refused(rw@, c) && v != TxValidationCode::Valid ==> v == TxValidationCode::MvccReadConflict
            }
        } by {
            if i < prev.verdicts.len() {
                assert(cur.verdicts[i] == prev.verdicts[i]);
                assert(prev_txs.take(i) =~= txs.take(i));
                assert(prev_txs[i] == txs[i]);
            } else {
                assert(i == last);
            }
        }
    }
}

/// `w` is one of the public writes of `rw`, with its namespace, key and
/// value, at `h`.
pub open spec fn is_write_of(rw: Seq<NsRwSet>, h: Height, w: WriteView) -> bool {
    exists|i: int, j: int|
        0 <= i < rw.len() && 0 <= j < rw[i].writes@.len() && w == (WriteView {
            namespace: rw[i].namespace@,
            key: #[trigger] rw[i].writes@[j].key@,
            value: rw[i].writes@[j].value@,
            height: h,
        })
}

/// The writes of a read-write set applied at `h` are exactly its public
/// writes, each with its namespace, key and value, at `h`: each applied
/// write is one of them, and each of them is applied.
pub proof fn lemma_writes_at_members(rw: Seq<NsRwSet>, h: Height)
    ensures
        forall|k: int| 0 <= k < writes_at(rw, h).len() ==> is_write_of(rw, h, #[trigger] writes_at(rw, h)[k]),
        forall|i: int, j: int|
            0 <= i < rw.len() && 0 <= j < rw[i].writes@.len() ==> writes_at(rw, h).contains(
                WriteView {
                    namespace: rw[i].namespace@,
                    key: #[trigger] rw[i].writes@[j].key@,
                    value: rw[i].writes@[j].value@,
                    height: h,
                },
            ),
    decreases rw.len(),
{
    if rw.len() > 0 {
        let prev = rw.drop_last();
        lemma_writes_at_members(prev, h);
        let all = writes_at(rw, h);
        let head = writes_at(prev, h);
        let s = rw.last();
        let tail = ns_writes(s, h);
        assert(all == head + tail);
        assert forall|k: int| 0 <= k < all.len() implies is_write_of(rw, h, #[trigger] all[k]) by {
            if k < head.len() {
                assert(all[k] == head[k]);
                assert(is_write_of(prev, h, head[k]));
                let (i, j) = choose|i: int, j: int|
                    0 <= i < prev.len() && 0 <= j < prev[i].writes@.len() && head[k] == (WriteView {
                        namespace: prev[i].namespace@,
                        key: #[trigger] prev[i].writes@[j].key@,
                        value: prev[i].writes@[j].value@,
                        height: h,
                    });
                assert(rw[i] == prev[i]);
                assert(rw[i].writes@[j].key@ == prev[i].writes@[j].key@);
            } else {
                let i = rw.len() - 1;
                let j = k - head.len();
                assert(all[k] == tail[j]);
                assert(rw[i] == s);
                assert(all[k] == (WriteView {
                    namespace: rw[i].namespace@,
                    key: rw[i].writes@[j].key@,
                    value: rw[i].writes@[j].value@,
                    height: h,
                }));
            }
        }
        assert forall|i: int, j: int| 0 <= i < rw.len() && 0 <= j < rw[i].writes@.len() implies all.contains(
            WriteView {
                namespace: rw[i].namespace@,
                key: #[trigger] rw[i].writes@[j].key@,
                value: rw[i].writes@[j].value@,
                height: h,
            },
        ) by {
            let w = WriteView {
                namespace: rw[i].namespace@,
                key: rw[i].writes@[j].key@,
                value: rw[i].writes@[j].value@,
                height: h,
            };
            if i < prev.len() {
                assert(rw[i] == prev[i]);
                assert(prev[i].writes@[j].key@ == rw[i].writes@[j].key@);
                assert(head.contains(w));
                let k = choose|k: int| 0 <= k < head.len() && head[k] == w;
                assert(all[k] == w);
            } else {
                assert(tail[j] == w);
                assert(all[head.len() + j] == w);
            }
        }
    } else {
        assert(writes_at(rw, h) =~= Seq::<WriteView>::empty());
    }
}

/// The batch grows only with the writes of valid transactions: after a
/// transaction judged other than valid it is unchanged, and after a valid
/// one it gains that transaction's public and hashed writes, in order, at
/// the transaction's height.
pub proof fn lemma_batch_growth(number: u64, txs: Seq<TxOutcome>, c: Versions)
    ensures
        forall|i: int|
            0 <= i < block_run(number, txs, c).verdicts.len() ==> {
                let before = block_run(number, txs.take(i), c).updates;
                let after = block_run(number, txs.take(i + 1), c).updates;
                let h = Height { block_num: number, tx_num: i as u64 };
                &&& #[trigger] block_run(number, txs, c).verdicts[i] != TxValidationCode::Valid ==> after == before
                &&& block_run(number, txs, c).verdicts[i] == TxValidationCode::Valid ==> (txs[i] matches TxOutcome::Decoded(rw)
                    && after.writes == before.writes + writes_at(rw@, h) && after.hashed == before.hashed
                    + hashed_writes_at(rw@, h))
            },
    decreases txs.len(),
{
    if txs.len() > 0 {
        let prev_txs = txs.drop_last();
        lemma_batch_growth(number, prev_txs, c);
        lemma_verdict_count(number, prev_txs, c);
        let prev = block_run(number, prev_txs, c);
        let cur = block_run(number, txs, c);
        let last = txs.len() - 1;
        assert(txs.take(last) =~= prev_txs);
        assert(txs.take(last + 1) =~= txs);
        assert forall|i: int| 0 <= i < cur.verdicts.len() implies {
            let before = block_run(number, txs.take(i), c).updates;
            let after = block_run(number, txs.take(i + 1), c).updates;
            let h = Height { block_num: number, tx_num: i as u64 };
            &&& #[trigger] cur.verdicts[i] != TxValidationCode::Valid ==> after == before
            &&& cur.verdicts[i] == TxValidationCode::Valid ==> (txs[i] matches TxOutcome::Decoded(rw)
                && after.writes == before.writes + writes_at(rw@, h) && after.hashed == before.hashed
                + hashed_writes_at(rw@, h))
        } by {
            if i < prev.verdicts.len() {
                assert(cur.verdicts[i] == prev.verdicts[i]);
                assert(prev_txs.take(i) =~= txs.take(i));
                assert(prev_txs.take(i + 1) =~= txs.take(i + 1));
                assert(prev_txs[i] == txs[i]);
            } else {
                assert(i == last);
            }
        }
    }
}

/// The transaction filter holds one byte per transaction: the byte of
/// each judged transaction's verdict, and the byte of `Valid` for those
/// after the transaction that stopped the validation.
pub proof fn lemma_filter_bytes(number: u64, txs: Seq<TxOutcome>, c: Versions, codes: CodeBytes)
    ensures
        filter_after(number, txs, c, codes).len() == txs.len(),
        forall|i: int|
            0 <= i < txs.len() ==> {
                let b = #[trigger] filter_after(number, txs, c, codes)[i];
                let vs = block_run(number, txs, c).verdicts;
                &&& i >= vs.len() ==> b == codes.valid
                &&& i < vs.len() && vs[i] == TxValidationCode::Valid ==> b == codes.valid
                &&& i < vs.len() && vs[i] == TxValidationCode::NilTxaction ==> b == codes.nil_txaction
                &&& i < vs.len() && vs[i] == TxValidationCode::InvalidOtherReason ==> b == codes.invalid_other_reason
                &&& i < vs.len() && vs[i] == TxValidationCode::InvalidWriteset ==> b == codes.invalid_writeset
                &&& i < vs.len() && vs[i] == TxValidationCode::MvccReadConflict ==> b == codes.mvcc_read_conflict
            },
{
}

} // verus!
