use vstd::prelude::*;

use crate::ledger::block::{init_tx_validation_flags, store_filter, tx_count, valid_flags, validated_metadata, Block};
use crate::text::same_text;

verus! {

/// The verdict on one transaction of a block.
#[derive(Debug, Clone, Copy, PartialEq, Eq, Structural)]
pub enum TxValidationCode {
    Valid,
    NilTxaction,
    InvalidOtherReason,
    InvalidWriteset,
    MvccReadConflict,
}

/// A position in the ledger: a block and a transaction within it.
#[derive(Debug, Clone, Copy, PartialEq, Eq, Structural)]
pub struct Height {
    pub block_num: u64,
    pub tx_num: u64,
}

/// A key a transaction read, with the version it saw (`None`: absent).
pub struct KvRead {
    pub key: String,
    pub version: Option<Height>,
}

/// A key a transaction writes, with its new value.
pub struct KvWrite {
    pub key: String,
    pub value: Vec<u8>,
}

/// A private key, known by its hash, that a transaction read.
pub struct HashedRead {
    pub key_hash: Vec<u8>,
    pub version: Option<Height>,
}

/// A private key, known by its hash, that a transaction writes, with the
/// hash of its new value.
pub struct HashedWrite {
    pub key_hash: Vec<u8>,
    pub value_hash: Vec<u8>,
}

/// What a transaction read and wrote of one private data collection, its
/// keys known by their hashes.
pub struct CollHashedRwSet {
    pub collection: String,
    pub hashed_reads: Vec<HashedRead>,
    pub hashed_writes: Vec<HashedWrite>,
}

/// What a transaction read and wrote in one namespace, public keys and
/// private collections.
pub struct NsRwSet {
    pub namespace: String,
    pub reads: Vec<KvRead>,
    pub writes: Vec<KvWrite>,
    pub collections: Vec<CollHashedRwSet>,
}

/// What decoding one transaction of a block gave.
pub enum TxOutcome {
    /// The transaction's bytes could not be decoded; the decoder's message.
    Undecodable(String),
    /// The transaction carries no signed proposal.
    NoProposal,
    /// The proposal's bytes could not be decoded; the decoder's message.
    BadProposal(String),
    /// The proposal carries no header.
    NoHeader,
    /// The transaction carries no endorsement response.
    NoResponse,
    /// The response payload could not be decoded.
    BadPayload,
    /// The read-write set could not be decoded.
    BadRwSet,
    /// The read-write set is not a valid one.
    BadWriteset,
    /// The read-write set, per namespace.
    Decoded(Vec<NsRwSet>),
}

/// A write waiting in the batch of a block.
pub struct BatchWrite {
    pub namespace: String,
    pub key: String,
    pub value: Vec<u8>,
    pub height: Height,
}

/// A private key, known by its hash, written in the batch of a block,
/// with the hash of its new value.
pub struct HashedUpdate {
    pub namespace: String,
    pub collection: String,
    pub key_hash: Vec<u8>,
    pub value_hash: Vec<u8>,
    pub height: Height,
}

/// The writes of a block's valid transactions so far.
pub struct Updates {
    pub writes: Vec<BatchWrite>,
    pub hashed: Vec<HashedUpdate>,
}

/// A batch write seen as values.
pub struct WriteView {
    pub namespace: Seq<char>,
    pub key: Seq<char>,
    pub value: Seq<u8>,
    pub height: Height,
}

/// A hashed update seen as values.
pub struct HashedView {
    pub namespace: Seq<char>,
    pub collection: Seq<char>,
    pub key_hash: Seq<u8>,
    pub value_hash: Seq<u8>,
    pub height: Height,
}

/// The updates of a batch seen as values.
#[verifier::ext_equal]
pub struct UpdatesView {
    pub writes: Seq<WriteView>,
    pub hashed: Seq<HashedView>,
}

impl View for BatchWrite {
    type V = WriteView;

    open spec fn view(&self) -> WriteView {
        WriteView { namespace: self.namespace@, key: self.key@, value: self.value@, height: self.height }
    }
}

impl View for HashedUpdate {
    type V = HashedView;

    open spec fn view(&self) -> HashedView {
        HashedView {
            namespace: self.namespace@,
            collection: self.collection@,
            key_hash: self.key_hash@,
            value_hash: self.value_hash@,
            height: self.height,
        }
    }
}

impl View for Updates {
    type V = UpdatesView;

    open spec fn view(&self) -> UpdatesView {
        UpdatesView {
            writes: self.writes@.map_values(|w: BatchWrite| w@),
            hashed: self.hashed@.map_values(|h: HashedUpdate| h@),
        }
    }
}

/// What the state database answers when asked for the committed version
/// of a key: the version (`None`: the key is absent), or the error that
/// kept it from reading it.
pub type VersionRead = Result<Option<Height>, String>;

/// A version read seen as values.
pub open spec fn read_view(r: VersionRead) -> Result<Option<Height>, Seq<char>> {
    match r {
        Ok(v) => Ok(v),
        Err(e) => Err(e@),
    }
}

/// The committed version of a public key, as the state database reports it.
pub struct CommittedVersion {
    pub namespace: String,
    pub key: String,
    pub version: VersionRead,
}

/// The committed version of a private key, known by its hash, as the
/// state database reports it.
pub struct CommittedHashVersion {
    pub namespace: String,
    pub collection: String,
    pub key_hash: Vec<u8>,
    pub version: VersionRead,
}

/// A write whose key and value the state database refuses to hold.
pub struct RefusedWrite {
    pub key: String,
    pub value: Vec<u8>,
}

/// What the state database reports for the keys a block reads (a key that
/// is not listed has no committed version) and of the writes it refuses
/// (a write that is not listed is accepted).
pub struct Versions {
    pub public: Vec<CommittedVersion>,
    pub hashed: Vec<CommittedHashVersion>,
    pub refused: Vec<RefusedWrite>,
}

/// Whether the state database refuses to hold `value` under `key`.
pub open spec fn is_refused(c: Versions, key: Seq<char>, value: Seq<u8>) -> bool {
    exists|k: int| 0 <= k < c.refused@.len() && #[trigger] c.refused@[k].key@ == key && c.refused@[k].value@ == value
}

/// Whether the state database refuses one of the public writes of `rw`.
pub open spec fn writes_refused(rw: Seq<NsRwSet>, c: Versions) -> bool {
    exists|i: int, j: int|
        0 <= i < rw.len() && 0 <= j < rw[i].writes@.len() && is_refused(
            c,
            #[trigger] rw[i].writes@[j].key@,
            rw[i].writes@[j].value@,
        )
}

/// What the state database reports of `key` in `ns`: the first entry for
/// it, or no version (`Ok(None)`) when there is none.
pub open spec fn committed_version(vs: Seq<CommittedVersion>, ns: Seq<char>, key: Seq<char>) -> Result<
    Option<Height>,
    Seq<char>,
>
    decreases vs.len(),
{
    if vs.len() == 0 {
        Ok(None)
    } else if vs[0].namespace@ == ns && vs[0].key@ == key {
        read_view(vs[0].version)
    } else {
        committed_version(vs.drop_first(), ns, key)
    }
}

/// The committed version of the private key `hash` of `coll` in `ns`.
pub open spec fn committed_hash_version(
    vs: Seq<CommittedHashVersion>,
    ns: Seq<char>,
    coll: Seq<char>,
    hash: Seq<u8>,
) -> Result<Option<Height>, Seq<char>>
    decreases vs.len(),
{
    if vs.len() == 0 {
        Ok(None)
    } else if vs[0].namespace@ == ns && vs[0].collection@ == coll && vs[0].key_hash@ == hash {
        read_view(vs[0].version)
    } else {
        committed_hash_version(vs.drop_first(), ns, coll, hash)
    }
}

/// Whether the batch already writes `key` in `ns`.
pub open spec fn pending_write(u: Seq<WriteView>, ns: Seq<char>, key: Seq<char>) -> bool {
    exists|k: int| 0 <= k < u.len() && #[trigger] u[k].namespace == ns && u[k].key == key
}

/// Whether the batch already writes the private key `hash` of `coll` in `ns`.
pub open spec fn pending_hashed(u: Seq<HashedView>, ns: Seq<char>, coll: Seq<char>, hash: Seq<u8>) -> bool {
    exists|k: int|
        0 <= k < u.len() && #[trigger] u[k].namespace == ns && u[k].collection == coll && u[k].key_hash
            == hash
}

/// The result of checking reads: all pass, one conflicts, or the state
/// database failed to give a version.
pub enum Check {
    Pass,
    Conflict,
    Failed(Seq<char>),
}

/// The first of two checks made in turn that does not pass.
pub open spec fn then_check(first: Check, second: Check) -> Check {
    if first is Pass {
        second
    } else {
        first
    }
}

/// The check of one version read against the version `read` that a
/// transaction saw.
pub open spec fn version_check(committed: Result<Option<Height>, Seq<char>>, read: Option<Height>) -> Check {
    match committed {
        Err(e) => Check::Failed(e),
        Ok(v) => if v == read {
            Check::Pass
        } else {
            Check::Conflict
        },
    }
}

/// A read conflicts when the block already wrote the key earlier, or when
/// the committed version differs from the version read; the committed
/// version is asked for only when the key was not written earlier.
pub open spec fn read_check(ns: Seq<char>, r: KvRead, u: UpdatesView, c: Versions) -> Check {
    if pending_write(u.writes, ns, r.key@) {
        Check::Conflict
    } else {
        version_check(committed_version(c.public@, ns, r.key@), r.version)
    }
}

/// The same for a hashed read of the collection `coll`.
pub open spec fn hashed_read_check(ns: Seq<char>, coll: Seq<char>, r: HashedRead, u: UpdatesView, c: Versions) -> Check {
    if pending_hashed(u.hashed, ns, coll, r.key_hash@) {
        Check::Conflict
    } else {
        version_check(committed_hash_version(c.hashed@, ns, coll, r.key_hash@), r.version)
    }
}

/// The reads of namespace `ns`, checked in order.
pub open spec fn reads_check(ns: Seq<char>, reads: Seq<KvRead>, u: UpdatesView, c: Versions) -> Check
    decreases reads.len(),
{
    if reads.len() == 0 {
        Check::Pass
    } else {
        then_check(read_check(ns, reads[0], u, c), reads_check(ns, reads.drop_first(), u, c))
    }
}

/// The hashed reads of collection `coll` of namespace `ns`, checked in order.
pub open spec fn hashed_reads_check(
    ns: Seq<char>,
    coll: Seq<char>,
    reads: Seq<HashedRead>,
    u: UpdatesView,
    c: Versions,
) -> Check
    decreases reads.len(),
{
    if reads.len() == 0 {
        Check::Pass
    } else {
        then_check(hashed_read_check(ns, coll, reads[0], u, c), hashed_reads_check(ns, coll, reads.drop_first(), u, c))
    }
}

/// The hashed reads of the collections of namespace `ns`, collection by
/// collection, in order.
pub open spec fn colls_check(ns: Seq<char>, colls: Seq<CollHashedRwSet>, u: UpdatesView, c: Versions) -> Check
    decreases colls.len(),
{
    if colls.len() == 0 {
        Check::Pass
    } else {
        then_check(
            hashed_reads_check(ns, colls[0].collection@, colls[0].hashed_reads@, u, c),
            colls_check(ns, colls.drop_first(), u, c),
        )
    }
}

/// The reads of one namespace: public reads first, then hashed reads.
pub open spec fn ns_check(s: NsRwSet, u: UpdatesView, c: Versions) -> Check {
    then_check(reads_check(s.namespace@, s.reads@, u, c), colls_check(s.namespace@, s.collections@, u, c))
}

/// The reads of a read-write set, namespace by namespace, in order.
pub open spec fn tx_check(rw: Seq<NsRwSet>, u: UpdatesView, c: Versions) -> Check
    decreases rw.len(),
{
    if rw.len() == 0 {
        Check::Pass
    } else {
        then_check(ns_check(rw[0], u, c), tx_check(rw.drop_first(), u, c))
    }
}

/// A check as computed: its view is a `Check`.
pub enum CheckResult {
    Pass,
    Conflict,
    Failed(String),
}

impl View for CheckResult {
    type V = Check;

    open spec fn view(&self) -> Check {
        match self {
            CheckResult::Pass => Check::Pass,
            CheckResult::Conflict => Check::Conflict,
            CheckResult::Failed(e) => Check::Failed(e@),
        }
    }
}

/// Whether two versions are the same.
fn same_version(a: Option<Height>, b: Option<Height>) -> (res: bool)
    ensures
        res == (a == b),
{
    match (a, b) {
        (None, None) => true,
        (Some(x), Some(y)) => x.block_num == y.block_num && x.tx_num == y.tx_num,
        _ => false,
    }
}

/// Whether two byte strings are the same.
fn same_bytes(a: &Vec<u8>, b: &Vec<u8>) -> (res: bool)
    ensures
        res == (a@ == b@),
{
    if a.len() != b.len() {
        return false;
    }
    let n = a.len();
    for i in 0..n
        invariant
            n == a.len(),
            n == b.len(),
            forall|k: int| 0 <= k < i ==> a@[k] == b@[k],
    {
        if a[i] != b[i] {
            return false;
        }
    }
    assert(a@ =~= b@);
    true
}

/// A copy of a byte string.
fn copy_bytes(a: &Vec<u8>) -> (res: Vec<u8>)
    ensures
        res@ == a@,
{
    let mut res: Vec<u8> = Vec::new();
    let n = a.len();
    for i in 0..n
        invariant
            n == a.len(),
            res@ == a@.take(i as int),
    {
        res.push(a[i]);
        assert(a@.take(i + 1) == a@.take(i as int).push(a@[i as int]));
    }
    assert(a@.take(n as int) == a@);
    res
}

/// A copy of a version read.
fn copy_read(r: &VersionRead) -> (res: VersionRead)
    ensures
        read_view(res) == read_view(*r),
{
    match r {
        Ok(v) => Ok(*v),
        Err(e) => Err(e.clone()),
    }
}

/// The committed version of `key` in `ns`.
fn lookup_version(c: &Versions, ns: &str, key: &str) -> (res: VersionRead)
    ensures
        read_view(res) == committed_version(c.public@, ns@, key@),
{
    let n = c.public.len();
    let mut i: usize = 0;
    assert(c.public@.subrange(0, n as int) == c.public@);
    while i < n
        invariant
            n == c.public@.len(),
            i <= n,
            committed_version(c.public@.subrange(i as int, n as int), ns@, key@) == committed_version(
                c.public@,
                ns@,
                key@,
            ),
        decreases n - i,
    {
        let e = &c.public[i];
        let ghost rest = c.public@.subrange(i as int, n as int);
        assert(rest[0] == *e);
        assert(rest.drop_first() == c.public@.subrange(i + 1, n as int));
        if same_text(e.namespace.as_str(), ns) && same_text(e.key.as_str(), key) {
            return copy_read(&e.version);
        }
        i = i + 1;
    }
    Ok(None)
}

/// The committed version of the private key `hash` of `coll` in `ns`.
fn lookup_hash_version(c: &Versions, ns: &str, coll: &str, hash: &Vec<u8>) -> (res: VersionRead)
    ensures
        read_view(res) == committed_hash_version(c.hashed@, ns@, coll@, hash@),
{
    let n = c.hashed.len();
    let mut i: usize = 0;
    assert(c.hashed@.subrange(0, n as int) == c.hashed@);
    while i < n
        invariant
            n == c.hashed@.len(),
            i <= n,
            committed_hash_version(c.hashed@.subrange(i as int, n as int), ns@, coll@, hash@)
                == committed_hash_version(c.hashed@, ns@, coll@, hash@),
        decreases n - i,
    {
        let e = &c.hashed[i];
        let ghost rest = c.hashed@.subrange(i as int, n as int);
        assert(rest[0] == *e);
        assert(rest.drop_first() == c.hashed@.subrange(i + 1, n as int));
        if same_text(e.namespace.as_str(), ns) && same_text(e.collection.as_str(), coll) && same_bytes(
            &e.key_hash,
            hash,
        ) {
            return copy_read(&e.version);
        }
        i = i + 1;
    }
    Ok(None)
}

/// Whether the batch already writes `key` in `ns`.
fn has_pending_write(u: &Updates, ns: &str, key: &str) -> (res: bool)
    ensures
        res == pending_write(u@.writes, ns@, key@),
{
    let n = u.writes.len();
    for k in 0..n
        invariant
            n == u.writes@.len(),
            forall|j: int|
                0 <= j < k ==> !(#[trigger] u@.writes[j].namespace == ns@ && u@.writes[j].key == key@),
    {
        let w = &u.writes[k];
        assert(u@.writes[k as int] == w@);
        if same_text(w.namespace.as_str(), ns) && same_text(w.key.as_str(), key) {
            assert(u@.writes[k as int].namespace == ns@ && u@.writes[k as int].key == key@);
            return true;
        }
    }
    false
}

/// Whether the batch already writes the private key `hash` of `coll` in `ns`.
fn has_pending_hashed(u: &Updates, ns: &str, coll: &str, hash: &Vec<u8>) -> (res: bool)
    ensures
        res == pending_hashed(u@.hashed, ns@, coll@, hash@),
{
    let n = u.hashed.len();
    for k in 0..n
        invariant
            n == u.hashed@.len(),
            forall|j: int|
                0 <= j < k ==> !(#[trigger] u@.hashed[j].namespace == ns@ && u@.hashed[j].collection == coll@
                    && u@.hashed[j].key_hash == hash@),
    {
        let h = &u.hashed[k];
        assert(u@.hashed[k as int] == h@);
        if same_text(h.namespace.as_str(), ns) && same_text(h.collection.as_str(), coll) && same_bytes(
            &h.key_hash,
            hash,
        ) {
            assert(u@.hashed[k as int].namespace == ns@ && u@.hashed[k as int].collection == coll@
                && u@.hashed[k as int].key_hash == hash@);
            return true;
        }
    }
    false
}

/// The check of a version read against the version `read`.
fn check_version(committed: VersionRead, read: Option<Height>) -> (res: CheckResult)
    ensures
        res@ == version_check(read_view(committed), read),
{
    match committed {
        Err(e) => CheckResult::Failed(e),
        Ok(v) => if same_version(v, read) {
            CheckResult::Pass
        } else {
            CheckResult::Conflict
        },
    }
}

/// Checks the reads of namespace `ns` in order.
fn check_reads(ns: &str, reads: &Vec<KvRead>, u: &Updates, c: &Versions) -> (res: CheckResult)
    ensures
        res@ == reads_check(ns@, reads@, u@, *c),
{
    let n = reads.len();
    let mut j: usize = 0;
    assert(reads@.subrange(0, n as int) == reads@);
    while j < n
        invariant
            n == reads@.len(),
            j <= n,
            reads_check(ns@, reads@.subrange(j as int, n as int), u@, *c) == reads_check(ns@, reads@, u@, *c),
        decreases n - j,
    {
        let r = &reads[j];
        let ghost rest = reads@.subrange(j as int, n as int);
        assert(rest[0] == *r);
        assert(rest.drop_first() == reads@.subrange(j + 1, n as int));
        let one = if has_pending_write(u, ns, r.key.as_str()) {
            CheckResult::Conflict
        } else {
            check_version(lookup_version(c, ns, r.key.as_str()), r.version)
        };
        assert(one@ == read_check(ns@, *r, u@, *c));
        match one {
            CheckResult::Pass => {},
            _ => {
                return one;
            },
        }
        j = j + 1;
    }
    CheckResult::Pass
}

/// Checks the hashed reads of collection `coll` of namespace `ns` in order.
fn check_hashed_reads(ns: &str, coll: &str, reads: &Vec<HashedRead>, u: &Updates, c: &Versions) -> (res: CheckResult)
    ensures
        res@ == hashed_reads_check(ns@, coll@, reads@, u@, *c),
{
    let n = reads.len();
    let mut j: usize = 0;
    assert(reads@.subrange(0, n as int) == reads@);
    while j < n
        invariant
            n == reads@.len(),
            j <= n,
            hashed_reads_check(ns@, coll@, reads@.subrange(j as int, n as int), u@, *c) == hashed_reads_check(
                ns@,
                coll@,
                reads@,
                u@,
                *c,
            ),
        decreases n - j,
    {
        let r = &reads[j];
        let ghost rest = reads@.subrange(j as int, n as int);
        assert(rest[0] == *r);
        assert(rest.drop_first() == reads@.subrange(j + 1, n as int));
        let one = if has_pending_hashed(u, ns, coll, &r.key_hash) {
            CheckResult::Conflict
        } else {
            check_version(lookup_hash_version(c, ns, coll, &r.key_hash), r.version)
        };
        assert(one@ == hashed_read_check(ns@, coll@, *r, u@, *c));
        match one {
            CheckResult::Pass => {},
            _ => {
                return one;
            },
        }
        j = j + 1;
    }
    CheckResult::Pass
}

/// Checks the hashed reads of the collections of namespace `ns`,
/// collection by collection.
fn check_colls(ns: &str, colls: &Vec<CollHashedRwSet>, u: &Updates, c: &Versions) -> (res: CheckResult)
    ensures
        res@ == colls_check(ns@, colls@, u@, *c),
{
    let n = colls.len();
    let mut j: usize = 0;
    assert(colls@.subrange(0, n as int) == colls@);
    while j < n
        invariant
            n == colls@.len(),
            j <= n,
            colls_check(ns@, colls@.subrange(j as int, n as int), u@, *c) == colls_check(ns@, colls@, u@, *c),
        decreases n - j,
    {
        let coll = &colls[j];
        let ghost rest = colls@.subrange(j as int, n as int);
        assert(rest[0] == *coll);
        assert(rest.drop_first() == colls@.subrange(j + 1, n as int));
        let one = check_hashed_reads(ns, coll.collection.as_str(), &coll.hashed_reads, u, c);
        match one {
            CheckResult::Pass => {},
            _ => {
                return one;
            },
        }
        j = j + 1;
    }
    CheckResult::Pass
}

/// Checks the reads of one namespace: public reads, then hashed reads.
fn check_ns(s: &NsRwSet, u: &Updates, c: &Versions) -> (res: CheckResult)
    ensures
        res@ == ns_check(*s, u@, *c),
{
    let ns = s.namespace.as_str();
    let first = check_reads(ns, &s.reads, u, c);
    match first {
        CheckResult::Pass => check_colls(ns, &s.collections, u, c),
        _ => first,
    }
}

/// Whether the state database refuses to hold `value` under `key`.
fn refuses(c: &Versions, key: &str, value: &Vec<u8>) -> (res: bool)
    ensures
        res == is_refused(*c, key@, value@),
{
    let n = c.refused.len();
    for k in 0..n
        invariant
            n == c.refused@.len(),
            forall|q: int| 0 <= q < k ==> !(#[trigger] c.refused@[q].key@ == key@ && c.refused@[q].value@ == value@),
    {
        let r = &c.refused[k];
        if same_text(r.key.as_str(), key) && same_bytes(&r.value, value) {
            return true;
        }
    }
    false
}

/// Whether the state database refuses one of the public writes of `rw`.
fn has_refused_write(rw: &Vec<NsRwSet>, c: &Versions) -> (res: bool)
    ensures
        res == writes_refused(rw@, *c),
{
    let n = rw.len();
    for i in 0..n
        invariant
            n == rw@.len(),
            forall|p: int, q: int|
                0 <= p < i && 0 <= q < rw@[p].writes@.len() ==> !is_refused(
                    *c,
                    #[trigger] rw@[p].writes@[q].key@,
                    rw@[p].writes@[q].value@,
                ),
    {
        let writes = &rw[i].writes;
        let m = writes.len();
        for j in 0..m
            invariant
                i < n,
                n == rw@.len(),
                m == writes@.len(),
                writes@ == rw@[i as int].writes@,
                forall|q: int| 0 <= q < j ==> !is_refused(*c, #[trigger] writes@[q].key@, writes@[q].value@),
                forall|p: int, q: int|
                    0 <= p < i && 0 <= q < rw@[p].writes@.len() ==> !is_refused(
                        *c,
                        #[trigger] rw@[p].writes@[q].key@,
                        rw@[p].writes@[q].value@,
                    ),
        {
            let w = &writes[j];
            if refuses(c, w.key.as_str(), &w.value) {
                assert(is_refused(*c, rw@[i as int].writes@[j as int].key@, rw@[i as int].writes@[j as int].value@));
                return true;
            }
        }
        assert forall|p: int, q: int|
            0 <= p < i + 1 && 0 <= q < rw@[p].writes@.len() implies !is_refused(
                *c,
                #[trigger] rw@[p].writes@[q].key@,
                rw@[p].writes@[q].value@,
            ) by {
            if p == i {
                assert(writes@[q] == rw@[p].writes@[q]);
            }
        }
    }
    false
}

/// The verdict on a transaction whose read-write set is `rw`, given the
/// batch `updates` of the block's earlier valid transactions and what the
/// state database reports: the reads are checked namespace by namespace,
/// public reads before hashed ones, each in order. A read conflicts when
/// its key was written earlier in the block or has a committed version
/// other than the one read; the first conflict gives `MvccReadConflict`.
/// When the state database fails to give a version before any conflict,
/// its error comes back. Otherwise the transaction is valid.
pub fn validate_tx(rw: &Vec<NsRwSet>, updates: &Updates, committed: &Versions) -> (res: Result<TxValidationCode, String>)
    ensures
        match tx_check(rw@, updates@, *committed) {
            Check::Pass => res == Ok::<TxValidationCode, String>(TxValidationCode::Valid),
            Check::Conflict => res == Ok::<TxValidationCode, String>(TxValidationCode::MvccReadConflict),
            Check::Failed(e) => res matches Err(m) && m@ == e,
        },
{
    let n = rw.len();
    let mut j: usize = 0;
    assert(rw@.subrange(0, n as int) == rw@);
    while j < n
        invariant
            n == rw@.len(),
            j <= n,
            tx_check(rw@.subrange(j as int, n as int), updates@, *committed) == tx_check(rw@, updates@, *committed),
        decreases n - j,
    {
        let ghost rest = rw@.subrange(j as int, n as int);
        assert(rest[0] == rw@[j as int]);
        assert(rest.drop_first() == rw@.subrange(j + 1, n as int));
        match check_ns(&rw[j], updates, committed) {
            CheckResult::Pass => {},
            CheckResult::Conflict => {
                return Ok(TxValidationCode::MvccReadConflict);
            },
            CheckResult::Failed(e) => {
                return Err(e);
            },
        }
        j = j + 1;
    }
    Ok(TxValidationCode::Valid)
}

/// Why a block could not be validated.
#[derive(Debug, PartialEq, Eq)]
pub enum ValidateError {
    /// The block has no header.
    HeaderNull,
    /// The block has no data.
    DataNull,
    /// A transaction's bytes could not be decoded; the decoder's message.
    TxUndecodable(String),
    /// A transaction carries no signed proposal.
    ProposalNull,
    /// A proposal's bytes could not be decoded; the decoder's message.
    ProposalUndecodable(String),
    /// A proposal carries no header.
    TxHeaderNull,
    /// The state database failed to give a committed version; its error.
    StateDb(String),
}

/// Why a block could not be validated, seen as values.
pub enum ValidateFailure {
    HeaderNull,
    DataNull,
    TxUndecodable(Seq<char>),
    ProposalNull,
    ProposalUndecodable(Seq<char>),
    TxHeaderNull,
    StateDb(Seq<char>),
}

impl View for ValidateError {
    type V = ValidateFailure;

    open spec fn view(&self) -> ValidateFailure {
        match self {
            ValidateError::HeaderNull => ValidateFailure::HeaderNull,
            ValidateError::DataNull => ValidateFailure::DataNull,
            ValidateError::TxUndecodable(m) => ValidateFailure::TxUndecodable(m@),
            ValidateError::ProposalNull => ValidateFailure::ProposalNull,
            ValidateError::ProposalUndecodable(m) => ValidateFailure::ProposalUndecodable(m@),
            ValidateError::TxHeaderNull => ValidateFailure::TxHeaderNull,
            ValidateError::StateDb(m) => ValidateFailure::StateDb(m@),
        }
    }
}

impl ValidateError {
    /// The message that describes the error.
    pub fn message(&self) -> (res: String)
        ensures
            self is HeaderNull ==> res@ == "block header is null"@,
            self is DataNull ==> res@ == "block data is null"@,
            self is ProposalNull ==> res@ == "proposal is null"@,
            self is TxHeaderNull ==> res@ == "transaction header is null"@,
            self matches ValidateError::TxUndecodable(m) ==> res@ == m@,
            self matches ValidateError::ProposalUndecodable(m) ==> res@ == m@,
            self matches ValidateError::StateDb(m) ==> res@ == m@,
    {
        match self {
            ValidateError::HeaderNull => String::from_str("block header is null"),
            ValidateError::DataNull => String::from_str("block data is null"),
            ValidateError::TxUndecodable(m) => m.clone(),
            ValidateError::ProposalNull => String::from_str("proposal is null"),
            ValidateError::ProposalUndecodable(m) => m.clone(),
            ValidateError::TxHeaderNull => String::from_str("transaction header is null"),
            ValidateError::StateDb(m) => m.clone(),
        }
    }
}

/// The writes of one namespace, to be applied at `h`.
pub open spec fn ns_writes(s: NsRwSet, h: Height) -> Seq<WriteView> {
    s.writes@.map_values(
        |w: KvWrite| WriteView { namespace: s.namespace@, key: w.key@, value: w.value@, height: h },
    )
}

/// The writes of a read-write set, namespace by namespace, in order, at `h`.
pub open spec fn writes_at(rw: Seq<NsRwSet>, h: Height) -> Seq<WriteView>
    decreases rw.len(),
{
    if rw.len() == 0 {
        Seq::<WriteView>::empty()
    } else {
        writes_at(rw.drop_last(), h) + ns_writes(rw.last(), h)
    }
}

/// The hashed writes of collection `coll` of namespace `ns`, to be applied at `h`.
pub open spec fn coll_hashed_writes(ns: Seq<char>, coll: CollHashedRwSet, h: Height) -> Seq<HashedView> {
    coll.hashed_writes@.map_values(
        |w: HashedWrite|
            HashedView {
                namespace: ns,
                collection: coll.collection@,
                key_hash: w.key_hash@,
                value_hash: w.value_hash@,
                height: h,
            },
    )
}

/// The hashed writes of the collections `colls` of namespace `ns`,
/// collection by collection, in order, at `h`.
pub open spec fn colls_hashed_writes(ns: Seq<char>, colls: Seq<CollHashedRwSet>, h: Height) -> Seq<HashedView>
    decreases colls.len(),
{
    if colls.len() == 0 {
        Seq::<HashedView>::empty()
    } else {
        colls_hashed_writes(ns, colls.drop_last(), h) + coll_hashed_writes(ns, colls.last(), h)
    }
}

/// The hashed writes of a read-write set, namespace by namespace, in
/// order, at `h`.
pub open spec fn hashed_writes_at(rw: Seq<NsRwSet>, h: Height) -> Seq<HashedView>
    decreases rw.len(),
{
    if rw.len() == 0 {
        Seq::<HashedView>::empty()
    } else {
        hashed_writes_at(rw.drop_last(), h) + colls_hashed_writes(rw.last().namespace@, rw.last().collections@, h)
    }
}

/// The batch `u` with the public and hashed writes of `rw` added at `h`.
pub open spec fn with_writes(u: UpdatesView, rw: Seq<NsRwSet>, h: Height) -> UpdatesView {
    UpdatesView { writes: u.writes + writes_at(rw, h), hashed: u.hashed + hashed_writes_at(rw, h) }
}

/// What one transaction of a block does, given the batch `u` of the valid
/// transactions before it and its height `h`: either it fails the block,
/// or it gets a verdict and leaves the batch as it becomes. A transaction
/// that cannot be decoded up to its proposal's header fails the block; no
/// response gives `NilTxaction`; an undecodable payload or read-write set
/// `InvalidOtherReason`; a bad write set `InvalidWriteset`, as does a
/// decoded one with a write the state database refuses. Otherwise its
/// reads are checked: a conflict gives `MvccReadConflict`, a
/// failure of the state database fails the block, and a valid
/// transaction's public and hashed writes enter the batch at `h`.
pub open spec fn tx_step(t: TxOutcome, u: UpdatesView, c: Versions, h: Height) -> Result<
    (TxValidationCode, UpdatesView),
    ValidateFailure,
> {
    match t {
        TxOutcome::Undecodable(m) => Err(ValidateFailure::TxUndecodable(m@)),
        TxOutcome::NoProposal => Err(ValidateFailure::ProposalNull),
        TxOutcome::BadProposal(m) => Err(ValidateFailure::ProposalUndecodable(m@)),
        TxOutcome::NoHeader => Err(ValidateFailure::TxHeaderNull),
        TxOutcome::NoResponse => Ok((TxValidationCode::NilTxaction, u)),
        TxOutcome::BadPayload => Ok((TxValidationCode::InvalidOtherReason, u)),
        TxOutcome::BadRwSet => Ok((TxValidationCode::InvalidOtherReason, u)),
        TxOutcome::BadWriteset => Ok((TxValidationCode::InvalidWriteset, u)),
        TxOutcome::Decoded(rw) => if writes_refused(rw@, c) {
            Ok((TxValidationCode::InvalidWriteset, u))
        } else {
            match tx_check(rw@, u, c) {
                Check::Pass => Ok((TxValidationCode::Valid, with_writes(u, rw@, h))),
                Check::Conflict => Ok((TxValidationCode::MvccReadConflict, u)),
                Check::Failed(e) => Err(ValidateFailure::StateDb(e)),
            }
        },
    }
}

/// Where the validation of a block's transactions stands: the verdicts so
/// far, the batch of the valid transactions' writes, and the failure that
/// stopped it, if one did.
pub struct BlockRun {
    pub verdicts: Seq<TxValidationCode>,
    pub updates: UpdatesView,
    pub failure: Option<ValidateFailure>,
}

/// The validation of the transactions `txs` of block `number`, in order:
/// each is judged against the batch of the valid ones before it, at height
/// (`number`, its position), and the first failure stops it.
pub open spec fn block_run(number: u64, txs: Seq<TxOutcome>, c: Versions) -> BlockRun
    decreases txs.len(),
{
    if txs.len() == 0 {
        BlockRun {
            verdicts: Seq::<TxValidationCode>::empty(),
            updates: UpdatesView { writes: Seq::<WriteView>::empty(), hashed: Seq::<HashedView>::empty() },
            failure: None,
        }
    } else {
        let prev = block_run(number, txs.drop_last(), c);
        if prev.failure is Some {
            prev
        } else {
            let h = Height { block_num: number, tx_num: (txs.len() - 1) as u64 };
            match tx_step(txs.last(), prev.updates, c, h) {
                Err(f) => BlockRun { failure: Some(f), ..prev },
                Ok((code, u)) => BlockRun { verdicts: prev.verdicts.push(code), updates: u, failure: None },
            }
        }
    }
}

/// Once the validation of the first `j` transactions has failed, the
/// later ones change nothing.
proof fn lemma_run_stops(number: u64, txs: Seq<TxOutcome>, c: Versions, j: int)
    requires
        0 <= j <= txs.len(),
        block_run(number, txs.take(j), c).failure is Some,
    ensures
        block_run(number, txs, c) == block_run(number, txs.take(j), c),
    decreases txs.len(),
{
    if j < txs.len() {
        assert(txs.drop_last().take(j) =~= txs.take(j));
        lemma_run_stops(number, txs.drop_last(), c, j);
    } else {
        assert(txs.take(j) =~= txs);
    }
}

/// The byte with which each verdict is stored in a block's transaction
/// filter.
pub struct CodeBytes {
    pub valid: u8,
    pub nil_txaction: u8,
    pub invalid_other_reason: u8,
    pub invalid_writeset: u8,
    pub mvcc_read_conflict: u8,
}

/// The byte of `code`.
pub open spec fn code_byte(codes: CodeBytes, code: TxValidationCode) -> u8 {
    match code {
        TxValidationCode::Valid => codes.valid,
        TxValidationCode::NilTxaction => codes.nil_txaction,
        TxValidationCode::InvalidOtherReason => codes.invalid_other_reason,
        TxValidationCode::InvalidWriteset => codes.invalid_writeset,
        TxValidationCode::MvccReadConflict => codes.mvcc_read_conflict,
    }
}

impl CodeBytes {
    /// The byte of `code`.
    pub fn byte(&self, code: TxValidationCode) -> (res: u8)
        ensures
            res == code_byte(*self, code),
    {
        match code {
            TxValidationCode::Valid => self.valid,
            TxValidationCode::NilTxaction => self.nil_txaction,
            TxValidationCode::InvalidOtherReason => self.invalid_other_reason,
            TxValidationCode::InvalidWriteset => self.invalid_writeset,
            TxValidationCode::MvccReadConflict => self.mvcc_read_conflict,
        }
    }
}

/// The transaction filter of block `number` whose transactions decoded to
/// `txs`: the byte of the verdict of each transaction judged before the
/// validation stopped; the byte of `Valid` for the others.
pub open spec fn filter_after(number: u64, txs: Seq<TxOutcome>, c: Versions, codes: CodeBytes) -> Seq<u8> {
    let verdicts = block_run(number, txs, c).verdicts;
    Seq::new(txs.len(), |q: int| if q < verdicts.len() { code_byte(codes, verdicts[q]) } else { codes.valid })
}

/// Every write of `rw` applied at `h` carries the height `h`.
proof fn lemma_writes_at_height(rw: Seq<NsRwSet>, h: Height)
    ensures
        forall|k: int| 0 <= k < writes_at(rw, h).len() ==> #[trigger] writes_at(rw, h)[k].height == h,
    decreases rw.len(),
{
    if rw.len() > 0 {
        lemma_writes_at_height(rw.drop_last(), h);
        let prev = writes_at(rw.drop_last(), h);
        let last = ns_writes(rw.last(), h);
        assert forall|k: int| 0 <= k < writes_at(rw, h).len() implies #[trigger] writes_at(rw, h)[k].height == h by {
            if k >= prev.len() {
                assert(writes_at(rw, h)[k] == last[k - prev.len()]);
            } else {
                assert(writes_at(rw, h)[k] == prev[k]);
            }
        }
    }
}

/// Every hashed write of the collections `colls` applied at `h` carries
/// the height `h`.
proof fn lemma_colls_hashed_height(ns: Seq<char>, colls: Seq<CollHashedRwSet>, h: Height)
    ensures
        forall|k: int|
            0 <= k < colls_hashed_writes(ns, colls, h).len() ==> #[trigger] colls_hashed_writes(ns, colls, h)[k].height
                == h,
    decreases colls.len(),
{
    if colls.len() > 0 {
        lemma_colls_hashed_height(ns, colls.drop_last(), h);
        let prev = colls_hashed_writes(ns, colls.drop_last(), h);
        let last = coll_hashed_writes(ns, colls.last(), h);
        let all = colls_hashed_writes(ns, colls, h);
        assert forall|k: int| 0 <= k < all.len() implies #[trigger] all[k].height == h by {
            if k >= prev.len() {
                assert(all[k] == last[k - prev.len()]);
            } else {
                assert(all[k] == prev[k]);
            }
        }
    }
}

/// Every hashed write of `rw` applied at `h` carries the height `h`.
proof fn lemma_hashed_writes_at_height(rw: Seq<NsRwSet>, h: Height)
    ensures
        forall|k: int| 0 <= k < hashed_writes_at(rw, h).len() ==> #[trigger] hashed_writes_at(rw, h)[k].height == h,
    decreases rw.len(),
{
    if rw.len() > 0 {
        lemma_hashed_writes_at_height(rw.drop_last(), h);
        lemma_colls_hashed_height(rw.last().namespace@, rw.last().collections@, h);
        let prev = hashed_writes_at(rw.drop_last(), h);
        let last = colls_hashed_writes(rw.last().namespace@, rw.last().collections@, h);
        let all = hashed_writes_at(rw, h);
        assert forall|k: int| 0 <= k < all.len() implies #[trigger] all[k].height == h by {
            if k >= prev.len() {
                assert(all[k] == last[k - prev.len()]);
            } else {
                assert(all[k] == prev[k]);
            }
        }
    }
}

/// A block gets one verdict per transaction judged (every transaction when
/// nothing failed), and every write of its batch, public or hashed,
/// belongs to the block: it is placed at a height of block `number`, at
/// the position of a transaction judged valid.
pub proof fn lemma_batch_shape(number: u64, txs: Seq<TxOutcome>, c: Versions)
    requires
        txs.len() <= u64::MAX,
    ensures
        block_run(number, txs, c).verdicts.len() <= txs.len(),
        block_run(number, txs, c).failure is None ==> block_run(number, txs, c).verdicts.len() == txs.len(),
        forall|k: int|
            0 <= k < block_run(number, txs, c).updates.writes.len() ==> {
                let w = #[trigger] block_run(number, txs, c).updates.writes[k];
                &&& w.height.block_num == number
                &&& w.height.tx_num < block_run(number, txs, c).verdicts.len()
                &&& block_run(number, txs, c).verdicts[w.height.tx_num as int] == TxValidationCode::Valid
            },
        forall|k: int|
            0 <= k < block_run(number, txs, c).updates.hashed.len() ==> {
                let w = #[trigger] block_run(number, txs, c).updates.hashed[k];
                &&& w.height.block_num == number
                &&& w.height.tx_num < block_run(number, txs, c).verdicts.len()
                &&& block_run(number, txs, c).verdicts[w.height.tx_num as int] == TxValidationCode::Valid
            },
    decreases txs.len(),
{
    if txs.len() > 0 {
        let prev = block_run(number, txs.drop_last(), c);
        lemma_batch_shape(number, txs.drop_last(), c);
        let cur = block_run(number, txs, c);
        let h = Height { block_num: number, tx_num: (txs.len() - 1) as u64 };
        if prev.failure is None {
            if let TxOutcome::Decoded(rw) = txs.last() {
                lemma_writes_at_height(rw@, h);
                lemma_hashed_writes_at_height(rw@, h);
            }
            assert forall|k: int| 0 <= k < cur.updates.writes.len() implies {
                let w = #[trigger] cur.updates.writes[k];
                &&& w.height.block_num == number
                &&& w.height.tx_num < cur.verdicts.len()
                &&& cur.verdicts[w.height.tx_num as int] == TxValidationCode::Valid
            } by {
                if k < prev.updates.writes.len() {
                    assert(cur.updates.writes[k] == prev.updates.writes[k]);
                } else {
                    let rw = txs.last()->Decoded_0;
                    assert(cur.updates.writes[k] == writes_at(rw@, h)[k - prev.updates.writes.len()]);
                }
            }
            assert forall|k: int| 0 <= k < cur.updates.hashed.len() implies {
                let w = #[trigger] cur.updates.hashed[k];
                &&& w.height.block_num == number
                &&& w.height.tx_num < cur.verdicts.len()
                &&& cur.verdicts[w.height.tx_num as int] == TxValidationCode::Valid
            } by {
                if k < prev.updates.hashed.len() {
                    assert(cur.updates.hashed[k] == prev.updates.hashed[k]);
                } else {
                    let rw = txs.last()->Decoded_0;
                    assert(cur.updates.hashed[k] == hashed_writes_at(rw@, h)[k - prev.updates.hashed.len()]);
                }
            }
        }
    }
}

/// Validating more transactions never changes what was decided on the
/// earlier ones: the verdicts and the batch of the first `j` transactions
/// begin the verdicts and the batch of all of them.
pub proof fn lemma_run_prefix(number: u64, txs: Seq<TxOutcome>, c: Versions, j: int)
    requires
        0 <= j <= txs.len(),
    ensures
        block_run(number, txs.take(j), c).verdicts.is_prefix_of(block_run(number, txs, c).verdicts),
        block_run(number, txs.take(j), c).updates.writes.is_prefix_of(block_run(number, txs, c).updates.writes),
        block_run(number, txs.take(j), c).updates.hashed.is_prefix_of(block_run(number, txs, c).updates.hashed),
    decreases txs.len(),
{
    if j == txs.len() {
        assert(txs.take(j) =~= txs);
    } else {
        assert(txs.drop_last().take(j) =~= txs.take(j));
        lemma_run_prefix(number, txs.drop_last(), c, j);
        let early = block_run(number, txs.take(j), c);
        let prev = block_run(number, txs.drop_last(), c);
        let cur = block_run(number, txs, c);
        assert(prev.verdicts.is_prefix_of(cur.verdicts));
        assert(prev.updates.writes.is_prefix_of(cur.updates.writes));
        assert(prev.updates.hashed.is_prefix_of(cur.updates.hashed));
        assert(early.verdicts.is_prefix_of(cur.verdicts));
        assert(early.updates.writes.is_prefix_of(cur.updates.writes));
        assert(early.updates.hashed.is_prefix_of(cur.updates.hashed));
    }
}

/// Adds the hashed writes of collection `coll` of namespace `ns` to the
/// batch, in order, at `h`.
fn apply_coll_writes(updates: &mut Updates, ns: &String, coll: &CollHashedRwSet, h: Height)
    ensures
        final(updates)@.writes == old(updates)@.writes,
        final(updates)@.hashed == old(updates)@.hashed + coll_hashed_writes(ns@, *coll, h),
{
    let ghost start = updates@;
    let ghost all = coll_hashed_writes(ns@, *coll, h);
    let m = coll.hashed_writes.len();
    assert(all.take(0) =~= Seq::<HashedView>::empty());
    assert(updates@.hashed =~= start.hashed + all.take(0));
    for j in 0..m
        invariant
            m == coll.hashed_writes@.len(),
            all == coll_hashed_writes(ns@, *coll, h),
            updates@.writes == start.writes,
            updates@.hashed == start.hashed + all.take(j as int),
    {
        let w = &coll.hashed_writes[j];
        let hu = HashedUpdate {
            namespace: ns.clone(),
            collection: coll.collection.clone(),
            key_hash: copy_bytes(&w.key_hash),
            value_hash: copy_bytes(&w.value_hash),
            height: h,
        };
        let ghost prev = updates.hashed@;
        updates.hashed.push(hu);
        assert(updates.hashed@ == prev.push(hu));
        assert(updates@.hashed =~= prev.map_values(|x: HashedUpdate| x@).push(hu@));
        assert(all.take(j + 1) =~= all.take(j as int).push(hu@));
        assert(updates@.hashed =~= start.hashed + all.take(j + 1));
    }
    assert(all.take(m as int) =~= all);
}

/// Adds the hashed writes of the namespace `s` to the batch, collection by
/// collection, in order, at `h`.
fn apply_ns_hashed_writes(updates: &mut Updates, s: &NsRwSet, h: Height)
    ensures
        final(updates)@.writes == old(updates)@.writes,
        final(updates)@.hashed == old(updates)@.hashed + colls_hashed_writes(s.namespace@, s.collections@, h),
{
    let ghost start = updates@;
    let n = s.collections.len();
    assert(s.collections@.take(0) =~= Seq::<CollHashedRwSet>::empty());
    assert(updates@.hashed =~= start.hashed + colls_hashed_writes(s.namespace@, s.collections@.take(0), h));
    for i in 0..n
        invariant
            n == s.collections@.len(),
            updates@.writes == start.writes,
            updates@.hashed == start.hashed + colls_hashed_writes(s.namespace@, s.collections@.take(i as int), h),
    {
        apply_coll_writes(updates, &s.namespace, &s.collections[i], h);
        assert(s.collections@.take(i + 1).drop_last() =~= s.collections@.take(i as int));
        assert(s.collections@.take(i + 1).last() == s.collections@[i as int]);
        assert(updates@.hashed =~= start.hashed + colls_hashed_writes(s.namespace@, s.collections@.take(i + 1), h));
    }
    assert(s.collections@.take(n as int) =~= s.collections@);
}

/// Adds the public and hashed writes of `rw` to the batch, in order, at `h`.
fn apply_writes(updates: &mut Updates, rw: &Vec<NsRwSet>, h: Height)
    ensures
        final(updates)@ == with_writes(old(updates)@, rw@, h),
{
    let ghost start = updates@;
    let n = rw.len();
    assert(writes_at(rw@.take(0), h) =~= Seq::<WriteView>::empty());
    assert(hashed_writes_at(rw@.take(0), h) =~= Seq::<HashedView>::empty());
    assert(updates@.writes =~= start.writes + writes_at(rw@.take(0), h));
    assert(updates@.hashed =~= start.hashed + hashed_writes_at(rw@.take(0), h));
    for i in 0..n
        invariant
            n == rw@.len(),
            updates@.writes == start.writes + writes_at(rw@.take(i as int), h),
            updates@.hashed == start.hashed + hashed_writes_at(rw@.take(i as int), h),
    {
        let s = &rw[i];
        let ghost before = updates@.writes;
        let ghost hashed_before = updates@.hashed;
        let m = s.writes.len();
        assert(ns_writes(*s, h).take(0) =~= Seq::<WriteView>::empty());
        assert(updates@.writes =~= before + ns_writes(*s, h).take(0));
        for j in 0..m
            invariant
                m == s.writes@.len(),
                updates@.writes == before + ns_writes(*s, h).take(j as int),
                updates@.hashed == hashed_before,
        {
            let w = &s.writes[j];
            let bw = BatchWrite {
                namespace: s.namespace.clone(),
                key: w.key.clone(),
                value: copy_bytes(&w.value),
                height: h,
            };
            let ghost prev = updates.writes@;
            updates.writes.push(bw);
            assert(updates.writes@ == prev.push(bw));
            assert(updates@.writes =~= prev.map_values(|x: BatchWrite| x@).push(bw@));
            assert(ns_writes(*s, h).take(j + 1) =~= ns_writes(*s, h).take(j as int).push(bw@));
            assert(updates@.writes =~= before + ns_writes(*s, h).take(j + 1));
        }
        apply_ns_hashed_writes(updates, s, h);
        assert(ns_writes(*s, h).take(m as int) =~= ns_writes(*s, h));
        assert(rw@.take(i + 1).drop_last() =~= rw@.take(i as int));
        assert(rw@.take(i + 1).last() == *s);
        assert(updates@.writes =~= start.writes + writes_at(rw@.take(i + 1), h));
        assert(updates@.hashed =~= start.hashed + hashed_writes_at(rw@.take(i + 1), h));
    }
    assert(rw@.take(n as int) =~= rw@);
    assert(updates@ =~= with_writes(start, rw@, h));
}

/// Validates the transactions of `block` and prepares the batch of their
/// writes. `txs` holds what decoding each transaction of the block gave,
/// `committed` what the state database reports, and `codes` the byte of
/// each verdict.
///
/// The block's metadata is reset first: one empty entry for each of the
/// `n_metadata` metadata indices, with the transaction filter at
/// `filter_index` marking every transaction valid, so missing or short
/// metadata is never an error. A block without header or data is refused.
/// Then each transaction in turn gets its verdict, stored in the filter,
/// and the public and hashed writes of each valid one enter the batch at
/// its height. A transaction that cannot be decoded up to its proposal's
/// header, or whose reads the state database fails to check, fails the
/// block, with the verdicts of the transactions before it already in the
/// filter. On success the batch comes back with the height of the block's
/// last transaction. Nothing but the metadata is written.
pub fn validate_and_prepare_batch(
    block: &mut Block,
    txs: Vec<TxOutcome>,
    committed: &Versions,
    n_metadata: usize,
    filter_index: usize,
    codes: &CodeBytes,
) -> (res: Result<(Updates, Height), ValidateError>)
    requires
        filter_index <= n_metadata,
        old(block).data matches Some(d) ==> txs@.len() == d.data@.len(),
        old(block).header is Some ==> (old(block).data matches Some(d) ==> d.data@.len() >= 1),
    ensures
        final(block).header == old(block).header,
        final(block).data == old(block).data,
        old(block).header is None ==> {
            &&& res matches Err(e) && e@ == ValidateFailure::HeaderNull
            &&& validated_metadata(
                final(block).metadata,
                n_metadata as nat,
                filter_index as int,
                Seq::new(tx_count(*old(block)), |q: int| codes.valid),
            )
        },
        old(block).header is Some && old(block).data is None ==> {
            &&& res matches Err(e) && e@ == ValidateFailure::DataNull
            &&& validated_metadata(final(block).metadata, n_metadata as nat, filter_index as int, Seq::<u8>::empty())
        },
        old(block).header is Some && old(block).data is Some ==> {
            let number = old(block).header->Some_0.number;
            let run = block_run(number, txs@, *committed);
            &&& validated_metadata(
                final(block).metadata,
                n_metadata as nat,
                filter_index as int,
                filter_after(number, txs@, *committed, *codes),
            )
            &&& run.failure matches Some(f) ==> (res matches Err(e) && e@ == f)
            &&& run.failure is None ==> (res matches Ok((u, h)) && u@ == run.updates && h == Height {
                block_num: number,
                tx_num: (txs@.len() - 1) as u64,
            })
        },
{
    init_tx_validation_flags(block, n_metadata, filter_index, codes.valid);
    let number = match &block.header {
        Some(hd) => hd.number,
        None => {
            return Err(ValidateError::HeaderNull);
        },
    };
    let n = match &block.data {
        Some(d) => d.data.len(),
        None => {
            assert(Seq::new(0nat, |q: int| codes.valid) =~= Seq::<u8>::empty());
            return Err(ValidateError::DataNull);
        },
    };
    let ghost c = *committed;
    let mut flags = valid_flags(n, codes.valid);
    let mut updates = Updates { writes: Vec::new(), hashed: Vec::new() };
    assert(txs@.take(0) =~= Seq::<TxOutcome>::empty());
    assert(updates@ =~= block_run(number, txs@.take(0), c).updates);
    assert(flags@ =~= Seq::new(
        n as nat,
        |q: int|
            if q < 0 {
                code_byte(*codes, block_run(number, txs@.take(0), c).verdicts[q])
            } else {
                codes.valid
            },
    ));
    for i in 0..n
        invariant
            n == txs@.len(),
            filter_index <= n_metadata,
            old(block).header matches Some(hd) && hd.number == number,
            old(block).data is Some,
            block.header == old(block).header,
            block.data == old(block).data,
            validated_metadata(
                block.metadata,
                n_metadata as nat,
                filter_index as int,
                Seq::new(n as nat, |q: int| codes.valid),
            ),
            c == *committed,
            block_run(number, txs@.take(i as int), c).failure is None,
            flags@ == Seq::new(
                n as nat,
                |q: int|
                    if q < i {
                        code_byte(*codes, block_run(number, txs@.take(i as int), c).verdicts[q])
                    } else {
                        codes.valid
                    },
            ),
            updates@ == block_run(number, txs@.take(i as int), c).updates,
    {
        let ghost prev = block_run(number, txs@.take(i as int), c);
        proof {
            lemma_batch_shape(number, txs@.take(i as int), c);
            assert(txs@.take(i + 1).drop_last() =~= txs@.take(i as int));
            assert(txs@.take(i + 1).last() == txs@[i as int]);
        }
        let h = Height { block_num: number, tx_num: i as u64 };
        let step: Result<TxValidationCode, ValidateError> = match &txs[i] {
            TxOutcome::Undecodable(m) => Err(ValidateError::TxUndecodable(m.clone())),
            TxOutcome::NoProposal => Err(ValidateError::ProposalNull),
            TxOutcome::BadProposal(m) => Err(ValidateError::ProposalUndecodable(m.clone())),
            TxOutcome::NoHeader => Err(ValidateError::TxHeaderNull),
            TxOutcome::NoResponse => Ok(TxValidationCode::NilTxaction),
            TxOutcome::BadPayload => Ok(TxValidationCode::InvalidOtherReason),
            TxOutcome::BadRwSet => Ok(TxValidationCode::InvalidOtherReason),
            TxOutcome::BadWriteset => Ok(TxValidationCode::InvalidWriteset),
            TxOutcome::Decoded(rw) => if has_refused_write(rw, committed) {
                Ok(TxValidationCode::InvalidWriteset)
            } else {
                match validate_tx(rw, &updates, committed) {
                    Err(e) => Err(ValidateError::StateDb(e)),
                    Ok(code) => {
                        if code == TxValidationCode::Valid {
                            apply_writes(&mut updates, rw, h);
                        }
                        Ok(code)
                    },
                }
            },
        };
        match step {
            Err(e) => {
                proof {
                    let next = block_run(number, txs@.take(i + 1), c);
                    assert(next.failure == Some(e@));
                    assert(next.verdicts == prev.verdicts);
                    lemma_run_stops(number, txs@, c, i + 1);
                    assert(flags@ =~= filter_after(number, txs@, c, *codes));
                }
                store_filter(block, n_metadata, filter_index, flags);
                return Err(e);
            },
            Ok(code) => {
                let b = codes.byte(code);
                flags[i] = b;
                proof {
                    let next = block_run(number, txs@.take(i + 1), c);
                    assert(next.verdicts == prev.verdicts.push(code));
                    assert(updates@ == next.updates);
                    assert(flags@ =~= Seq::new(
                        n as nat,
                        |q: int|
                            if q < i + 1 {
                                code_byte(*codes, next.verdicts[q])
                            } else {
                                codes.valid
                            },
                    ));
                }
            },
        }
    }
    assert(txs@.take(n as int) =~= txs@);
    proof {
        lemma_batch_shape(number, txs@, c);
        assert(flags@ =~= filter_after(number, txs@, c, *codes));
    }
    store_filter(block, n_metadata, filter_index, flags);
    Ok((updates, Height { block_num: number, tx_num: (n - 1) as u64 }))
}

} // verus!
