use vstd::prelude::*;

use crate::fs_path::{contained, join, lies_under, path_join};
use crate::text::opt_view;

verus! {

/// The signature that opens a ZIP archive: `PK` followed by one of the
/// record markers 3-4, 5-6 or 7-8, or the WinZip prefix `PK00PK` 3-4.
pub open spec fn zip_signature(buf: Seq<u8>) -> bool {
    &&& buf.len() > 3
    &&& buf[0] == 0x50u8
    &&& buf[1] == 0x4Bu8
    &&& {
        ||| buf[2] == 0x3u8 && buf[3] == 0x4u8
        ||| buf[2] == 0x5u8 && buf[3] == 0x6u8
        ||| buf[2] == 0x7u8 && buf[3] == 0x8u8
        ||| buf.len() > 7 && buf[2] == 0x30u8 && buf[3] == 0x30u8 && buf[4] == 0x50u8
            && buf[5] == 0x4Bu8 && buf[6] == 0x3u8 && buf[7] == 0x4u8
    }
}

/// Whether `buf` opens with a ZIP signature: the test of
/// `infer::archive::is_zip`, whose whole behaviour is `zip_signature`.
fn is_zip(buf: &[u8]) -> (res: bool)
    ensures
        res == zip_signature(buf@),
{
    let n = buf.len();
    if n <= 3 || buf[0] != 0x50u8 || buf[1] != 0x4Bu8 {
        return false;
    }
    let (b2, b3) = (buf[2], buf[3]);
    if (b2 == 0x3u8 && b3 == 0x4u8) || (b2 == 0x5u8 && b3 == 0x6u8) || (b2 == 0x7u8 && b3 == 0x8u8) {
        return true;
    }
    n > 7 && b2 == 0x30u8 && b3 == 0x30u8 && buf[4] == 0x50u8 && buf[5] == 0x4Bu8 && buf[6] == 0x3u8
        && buf[7] == 0x4u8
}

/// The archive formats that can be unpacked.
#[derive(Debug, PartialEq, Eq)]
pub enum ArchiveFormat {
    Zip,
}

/// Why an archive cannot be unpacked.
#[derive(Debug, PartialEq, Eq)]
pub enum UnpackError {
    /// The content is not an archive of a supported format ("unsupported file type").
    UnsupportedFileType,
    /// An entry does not lie under the path of the first entry ("prefix not found").
    PrefixNotFound,
    /// The content is not a readable ZIP archive ("invalid Zip archive").
    InvalidArchive,
    /// An entry of the archive cannot be read ("invalid Zip archive entry").
    UnreadableEntry,
}

impl UnpackError {
    /// The message that describes the error.
    pub fn message(&self) -> (res: String)
        ensures
            self is UnsupportedFileType ==> res@ == "unsupported file type"@,
            self is PrefixNotFound ==> res@ == "prefix not found"@,
            self is InvalidArchive ==> res@ == "invalid Zip archive"@,
            self is UnreadableEntry ==> res@ == "invalid Zip archive entry"@,
    {
        match self {
            UnpackError::UnsupportedFileType => String::from_str("unsupported file type"),
            UnpackError::PrefixNotFound => String::from_str("prefix not found"),
            UnpackError::InvalidArchive => String::from_str("invalid Zip archive"),
            UnpackError::UnreadableEntry => String::from_str("invalid Zip archive entry"),
        }
    }
}

/// The format in which `v` is unpacked: ZIP when it opens with a ZIP
/// signature; anything else is not supported.
pub fn archive_format(v: &[u8]) -> (res: Result<ArchiveFormat, UnpackError>)
    ensures
        zip_signature(v@) ==> res == Ok::<ArchiveFormat, UnpackError>(ArchiveFormat::Zip),
        !zip_signature(v@) ==> res == Err::<ArchiveFormat, UnpackError>(UnpackError::UnsupportedFileType),
{
    if is_zip(v) {
        Ok(ArchiveFormat::Zip)
    } else {
        Err(UnpackError::UnsupportedFileType)
    }
}

/// What `Path::strip_prefix` gives for `path` and `base`: the rest of
/// `path` after the whole components of `base`, or `None` when `base` is
/// not a prefix of `path` component by component.
pub uninterp spec fn stripped_path(path: Seq<char>, base: Seq<char>) -> Option<Seq<char>>;

/// `std::path::Path::strip_prefix`, its result named by `stripped_path`.
/// As documented, the rest joined onto `base` gives `path` back, so the
/// rest of a contained path is contained: its components are the last
/// components of `path`.
#[verifier::external_body]
fn strip_path_prefix(path: &str, base: &str) -> (res: Option<String>)
    ensures
        opt_view(res) == stripped_path(path@, base@),
        contained(path@) ==> (res matches Some(rest) ==> contained(rest@)),
{
    match std::path::Path::new(path).strip_prefix(base) {
        Ok(rest) => Some(rest.to_string_lossy().into_owned()),
        Err(_) => None,
    }
}

/// What to do with one entry of an archive.
pub enum EntryAction {
    /// Create the directory at this path.
    CreateDir(String),
    /// Write the entry's content to a file at this path.
    WriteFile(String),
}

/// `target` stays where the archive is unpacked: under `root` when there
/// is a destination, else a contained path, under the working directory.
pub open spec fn stays_under(dist: Option<Seq<char>>, target: Seq<char>) -> bool {
    match dist {
        Some(root) => lies_under(root, target),
        None => contained(target),
    }
}

/// The path an entry action works on.
pub open spec fn entry_target(a: EntryAction) -> Seq<char> {
    match a {
        EntryAction::CreateDir(p) => p@,
        EntryAction::WriteFile(p) => p@,
    }
}

/// Where the entries of a ZIP archive go, entry by entry: into `dist`
/// when there is one, relative to the path of the first entry; else at
/// their own paths.
pub struct ZipPlacement {
    pub dist: Option<String>,
    pub base: String,
}

/// Where an entry whose path is `entry` goes: under `dist` with `base`
/// stripped from it, or at its own path; `None` when it does not lie
/// under `base`.
pub open spec fn placement(dist: Option<Seq<char>>, base: Seq<char>, entry: Seq<char>) -> Option<Seq<char>> {
    match dist {
        None => Some(entry),
        Some(root) => match stripped_path(entry, base) {
            Some(rest) => Some(path_join(root, rest)),
            None => None,
        },
    }
}

impl ZipPlacement {
    /// Placement into `dist`, before any entry was seen.
    pub fn new(dist: Option<&str>) -> (res: ZipPlacement)
        ensures
            res.dist matches Some(d) ==> dist matches Some(e) && d@ == e@,
            res.dist is None <==> dist is None,
            res.base@ == Seq::<char>::empty(),
    {
        let dist = match dist {
            Some(d) => Some(d.to_owned()),
            None => None,
        };
        ZipPlacement { dist, base: String::new() }
    }

    /// Places the entry at position `index`, whose sanitised path is
    /// `enclosed` (`None` when the entry's name is unsafe) and which is a
    /// directory when `is_dir`: an unsafe entry is skipped; the path of
    /// the entry at position 0 becomes the base the others are placed
    /// relative to.
    pub fn place(&mut self, index: usize, enclosed: Option<String>, is_dir: bool) -> (res: Result<Option<EntryAction>, UnpackError>)
        ensures
            final(self).dist == old(self).dist,
            (index == 0 && enclosed is Some) ==> opt_view(enclosed) == Some(final(self).base@),
            !(index == 0 && enclosed is Some) ==> final(self).base == old(self).base,
            enclosed is None ==> res matches Ok(None),
            enclosed matches Some(entry) ==> match placement(opt_view(old(self).dist), final(self).base@, entry@) {
                None => res == Err::<Option<EntryAction>, UnpackError>(UnpackError::PrefixNotFound),
                Some(target) => res matches Ok(Some(action)) && entry_target(action) == target && (
                    action is CreateDir <==> is_dir),
            },
            enclosed matches Some(entry) && contained(entry@) ==> (res matches Ok(Some(action)) ==> stays_under(
                opt_view(old(self).dist),
                entry_target(action),
            )),
    {
        let entry = match enclosed {
            Some(e) => e,
            None => return Ok(None),
        };
        if index == 0 {
            self.base = entry.clone();
        }
        let target = match &self.dist {
            None => entry,
            Some(root) => match strip_path_prefix(entry.as_str(), self.base.as_str()) {
                Some(rest) => {
                    let target = join(root.as_str(), rest.as_str());
                    assert(contained(entry@) ==> contained(rest@) && target@ == path_join(root@, rest@));
                    target
                },
                None => return Err(UnpackError::PrefixNotFound),
            },
        };
        if is_dir {
            Ok(Some(EntryAction::CreateDir(target)))
        } else {
            Ok(Some(EntryAction::WriteFile(target)))
        }
    }
}

/// What an entry of a ZIP archive tells of itself.
pub struct ZipEntryInfo {
    /// Its path, when it is safe to use: relative, with no `..`
    /// component.
    pub enclosed: Option<String>,
    /// Its name as stored, when it can be decoded.
    pub name: Option<String>,
    /// Its Unix permission bits, when recorded.
    pub unix_mode: Option<u32>,
}

/// An entry's information seen as values.
pub struct EntryView {
    pub enclosed: Option<Seq<char>>,
    pub name: Option<Seq<char>>,
    pub unix_mode: Option<u32>,
}

impl View for ZipEntryInfo {
    type V = EntryView;

    open spec fn view(&self) -> EntryView {
        EntryView { enclosed: opt_view(self.enclosed), name: opt_view(self.name), unix_mode: self.unix_mode }
    }
}

/// The reader of a ZIP archive.
#[verifier::external_type_specification]
#[verifier::external_body]
#[verifier::reject_recursive_types(R)]
pub struct ExZipArchive<R>(zip::ZipArchive<R>);

/// Bytes held in memory, read as a stream.
#[verifier::external_type_specification]
#[verifier::external_body]
#[verifier::reject_recursive_types(T)]
pub struct ExCursor<T>(std::io::Cursor<T>);

/// The entries of an opened ZIP archive, by index: what can be read of
/// each, or `None` for an entry that cannot be opened.
pub uninterp spec fn archive_entries(a: zip::ZipArchive<std::io::Cursor<Vec<u8>>>) -> Seq<Option<EntryView>>;

/// What `zip::ZipArchive::new` finds in `bytes`: `None` when they do not
/// open as an archive; otherwise its entries.
pub uninterp spec fn zip_archive_of(bytes: Seq<u8>) -> Option<Seq<Option<EntryView>>>;

/// `zip::ZipArchive::new` over a copy of `v`. What it finds is named by
/// `zip_archive_of`.
#[verifier::external_body]
fn open_zip(v: &[u8]) -> (res: Option<zip::ZipArchive<std::io::Cursor<Vec<u8>>>>)
    ensures
        match res {
            Some(a) => zip_archive_of(v@) == Some(archive_entries(a)),
            None => zip_archive_of(v@) is None,
        },
{
    zip::ZipArchive::new(std::io::Cursor::new(v.to_vec())).ok()
}

/// `zip::ZipArchive::len`: the number of entries.
#[verifier::external_body]
fn archive_len(a: &zip::ZipArchive<std::io::Cursor<Vec<u8>>>) -> (n: usize)
    ensures
        n == archive_entries(*a).len(),
{
    a.len()
}

/// `zip::ZipArchive::by_index`: the entry at `i`, with its
/// `enclosed_name`, `name` and `unix_mode`, or `None` when it cannot be
/// opened. Opening an entry moves the reader only; the entries stay as
/// they were. `enclosed_name` builds its path from the name's normal
/// components alone, refusing a name that climbs above its start, so a
/// safe path is contained.
#[verifier::external_body]
fn read_entry(a: &mut zip::ZipArchive<std::io::Cursor<Vec<u8>>>, i: usize) -> (res: Option<ZipEntryInfo>)
    requires
        i < archive_entries(*old(a)).len(),
    ensures
        archive_entries(*final(a)) == archive_entries(*old(a)),
        match res {
            Some(e) => archive_entries(*old(a))[i as int] == Some(e@),
            None => archive_entries(*old(a))[i as int] is None,
        },
        res matches Some(e) ==> (e.enclosed matches Some(p) ==> contained(p@)),
{
    let file = match a.by_index(i) {
        Ok(file) => file,
        Err(_) => return None,
    };
    let enclosed = match file.enclosed_name() {
        Some(p) => Some(p.to_string_lossy().into_owned()),
        None => None,
    };
    let name = match file.name() {
        Ok(n) => Some(n.into_owned()),
        Err(_) => None,
    };
    Some(ZipEntryInfo { enclosed, name, unix_mode: file.unix_mode() })
}

/// The entries of `es` up to the first that cannot be read, and whether
/// every entry was read.
pub open spec fn readable_prefix(es: Seq<Option<EntryView>>) -> (Seq<EntryView>, bool)
    decreases es.len(),
{
    if es.len() == 0 {
        (Seq::<EntryView>::empty(), true)
    } else if es[0] is None {
        (Seq::<EntryView>::empty(), false)
    } else {
        let rest = readable_prefix(es.drop_first());
        (seq![es[0]->Some_0] + rest.0, rest.1)
    }
}

/// What is read from the ZIP archive `bytes`: `None` when they do not open
/// as an archive; otherwise its entries in order, up to the first that
/// cannot be read, and whether every entry was read.
pub open spec fn zip_entries(bytes: Seq<u8>) -> Option<(Seq<EntryView>, bool)> {
    match zip_archive_of(bytes) {
        Some(es) => Some(readable_prefix(es)),
        None => None,
    }
}

/// Reads the entries of the ZIP archive `v` in order, stopping at the
/// first that cannot be read.
fn read_zip_entries(v: &[u8]) -> (res: Option<(Vec<ZipEntryInfo>, bool)>)
    ensures
        match res {
            Some((es, complete)) => zip_entries(v@) == Some((es@.map_values(|e: ZipEntryInfo| e@), complete)),
            None => zip_entries(v@) is None,
        },
        res matches Some((es, complete)) ==> forall|i: int|
            0 <= i < es@.len() ==> (#[trigger] es@[i].enclosed matches Some(p) ==> contained(p@)),
{
    let mut archive = match open_zip(v) {
        Some(a) => a,
        None => {
            return None;
        },
    };
    let ghost all = archive_entries(archive);
    let n = archive_len(&archive);
    let mut entries: Vec<ZipEntryInfo> = Vec::new();
    let mut i: usize = 0;
    assert(all.subrange(0, n as int) =~= all);
    assert(entries@.map_values(|e: ZipEntryInfo| e@) + readable_prefix(all).0 =~= readable_prefix(all).0);
    while i < n
        invariant
            n == all.len(),
            i <= n,
            archive_entries(archive) == all,
            zip_archive_of(v@) == Some(all),
            readable_prefix(all).0 == entries@.map_values(|e: ZipEntryInfo| e@) + readable_prefix(
                all.subrange(i as int, n as int),
            ).0,
            readable_prefix(all).1 == readable_prefix(all.subrange(i as int, n as int)).1,
            forall|j: int| 0 <= j < entries@.len() ==> (#[trigger] entries@[j].enclosed matches Some(p) ==> contained(p@)),
        decreases n - i,
    {
        let ghost rest = all.subrange(i as int, n as int);
        let ghost before = entries@.map_values(|e: ZipEntryInfo| e@);
        assert(rest[0] == all[i as int]);
        assert(rest.drop_first() =~= all.subrange(i + 1, n as int));
        match read_entry(&mut archive, i) {
            Some(e) => {
                let ghost prev = entries@;
                entries.push(e);
                assert(entries@.map_values(|e: ZipEntryInfo| e@) =~= before.push(e@));
                assert(before.push(e@) + readable_prefix(rest.drop_first()).0 =~= before + (seq![e@]
                    + readable_prefix(rest.drop_first()).0));
            },
            None => {
                assert(before + readable_prefix(rest).0 =~= before);
                return Some((entries, false));
            },
        }
        i = i + 1;
    }
    assert(all.subrange(n as int, n as int) =~= Seq::<Option<EntryView>>::empty());
    assert(entries@.map_values(|e: ZipEntryInfo| e@) + Seq::<EntryView>::empty() =~= entries@.map_values(
        |e: ZipEntryInfo| e@,
    ));
    Some((entries, true))
}

/// An entry names a directory when its stored name ends with `/`.
pub open spec fn names_dir(name: Option<Seq<char>>) -> bool {
    name matches Some(n) && n.len() > 0 && n.last() == '/'
}

/// One entry to extract: its position in the archive, what to do with it,
/// and the permission bits to give the result.
pub struct PlannedEntry {
    pub index: usize,
    pub action: EntryAction,
    pub unix_mode: Option<u32>,
}

/// A planned entry seen as values.
pub struct PlanView {
    pub index: int,
    pub target: Seq<char>,
    pub is_dir: bool,
    pub unix_mode: Option<u32>,
}

impl View for PlannedEntry {
    type V = PlanView;

    open spec fn view(&self) -> PlanView {
        PlanView {
            index: self.index as int,
            target: entry_target(self.action),
            is_dir: self.action is CreateDir,
            unix_mode: self.unix_mode,
        }
    }
}

/// The base the entries are placed relative to: the path of the entry at
/// position 0, or the empty path when it has none.
pub open spec fn entries_base(es: Seq<EntryView>) -> Seq<char> {
    if es.len() > 0 && es[0].enclosed is Some {
        es[0].enclosed->0
    } else {
        Seq::<char>::empty()
    }
}

/// Whether the entry does not lie under the base (and so stops the unpacking).
pub open spec fn entry_stops(e: EntryView, dist: Option<Seq<char>>, base: Seq<char>) -> bool {
    e.enclosed matches Some(p) && placement(dist, base, p) is None
}

/// The position of the first entry that stops the unpacking, or the number
/// of entries.
pub open spec fn first_stop(es: Seq<EntryView>, dist: Option<Seq<char>>, base: Seq<char>) -> int
    decreases es.len(),
{
    if es.len() == 0 {
        0
    } else {
        let f = first_stop(es.drop_last(), dist, base);
        if f < es.len() - 1 {
            f
        } else if entry_stops(es.last(), dist, base) {
            es.len() - 1
        } else {
            es.len() as int
        }
    }
}

/// The view of an optional destination.
pub open spec fn dist_view(dist: Option<&str>) -> Option<Seq<char>> {
    match dist {
        Some(d) => Some(d@),
        None => None,
    }
}

/// A stop found among the first `j` entries is the first stop of all of them.
proof fn lemma_first_stop_prefix(es: Seq<EntryView>, d: Option<Seq<char>>, base: Seq<char>, j: int)
    requires
        0 <= j <= es.len(),
        first_stop(es.take(j), d, base) < j,
    ensures
        first_stop(es, d, base) == first_stop(es.take(j), d, base),
    decreases es.len(),
{
    if j < es.len() {
        assert(es.drop_last().take(j) =~= es.take(j));
        lemma_first_stop_prefix(es.drop_last(), d, base, j);
    } else {
        assert(es.take(j) =~= es);
    }
}

/// The extractions planned for `es` (none of which stops): each entry with
/// a safe path, in order, at its placement.
pub open spec fn planned(es: Seq<EntryView>, dist: Option<Seq<char>>, base: Seq<char>) -> Seq<PlanView>
    decreases es.len(),
{
    if es.len() == 0 {
        Seq::<PlanView>::empty()
    } else {
        let rest = planned(es.drop_last(), dist, base);
        let e = es.last();
        match e.enclosed {
            Some(p) => match placement(dist, base, p) {
                Some(t) => rest.push(
                    PlanView { index: es.len() - 1, target: t, is_dir: names_dir(e.name), unix_mode: e.unix_mode },
                ),
                None => rest,
            },
            None => rest,
        }
    }
}

/// Each planned extraction comes from an entry with a safe path, at the
/// position it records, in the order of the entries; it is placed where
/// that entry's path is placed, and carries that entry's kind (directory
/// or file) and permission bits.
pub proof fn lemma_planned_entries(es: Seq<EntryView>, dist: Option<Seq<char>>, base: Seq<char>)
    ensures
        forall|j: int|
            0 <= j < planned(es, dist, base).len() ==> {
                let p = #[trigger] planned(es, dist, base)[j];
                &&& 0 <= p.index < es.len()
                &&& es[p.index].enclosed matches Some(path) && placement(dist, base, path) == Some(p.target)
                &&& p.is_dir == names_dir(es[p.index].name)
                &&& p.unix_mode == es[p.index].unix_mode
            },
        forall|j: int, l: int|
            0 <= j < l < planned(es, dist, base).len() ==> planned(es, dist, base)[j].index < planned(
                es,
                dist,
                base,
            )[l].index,
    decreases es.len(),
{
    if es.len() > 0 {
        let prev = es.drop_last();
        lemma_planned_entries(prev, dist, base);
        let rest = planned(prev, dist, base);
        let all = planned(es, dist, base);
        assert forall|j: int| 0 <= j < rest.len() implies #[trigger] es[rest[j].index] == prev[rest[j].index] by {}
        assert forall|j: int| 0 <= j < all.len() implies {
            let p = #[trigger] all[j];
            &&& 0 <= p.index < es.len()
            &&& es[p.index].enclosed matches Some(path) && placement(dist, base, path) == Some(p.target)
            &&& p.is_dir == names_dir(es[p.index].name)
            &&& p.unix_mode == es[p.index].unix_mode
        } by {
            if j < rest.len() {
                assert(all[j] == rest[j]);
                assert(es[rest[j].index] == prev[rest[j].index]);
            }
        }
        assert forall|j: int, l: int| 0 <= j < l < all.len() implies all[j].index < all[l].index by {
            if l < rest.len() {
                assert(all[j] == rest[j] && all[l] == rest[l]);
            } else {
                assert(all[j] == rest[j]);
            }
        }
    }
}

/// The fields of a plan whose view is what `lemma_planned_entries`
/// speaks of, for the first `k` entries of `es`.
proof fn lemma_plan_fields(
    plan: Seq<PlannedEntry>,
    es: Seq<EntryView>,
    dist: Option<Seq<char>>,
    base: Seq<char>,
    k: int,
)
    requires
        0 <= k <= es.len(),
        plan.map_values(|p: PlannedEntry| p@) == planned(es.take(k), dist, base),
    ensures
        forall|j: int|
            0 <= j < plan.len() ==> {
                let p = #[trigger] plan[j];
                &&& p.index < k
                &&& es[p.index as int].enclosed is Some
                &&& p.unix_mode == es[p.index as int].unix_mode
                &&& (p.action is CreateDir) == names_dir(es[p.index as int].name)
            },
        forall|j: int, l: int| 0 <= j < l < plan.len() ==> plan[j].index < plan[l].index,
{
    lemma_planned_entries(es.take(k), dist, base);
    let pl = planned(es.take(k), dist, base);
    assert forall|j: int| 0 <= j < plan.len() implies {
        let p = #[trigger] plan[j];
        &&& p.index < k
        &&& es[p.index as int].enclosed is Some
        &&& p.unix_mode == es[p.index as int].unix_mode
        &&& (p.action is CreateDir) == names_dir(es[p.index as int].name)
    } by {
        assert(plan[j]@ == pl[j]);
        assert(es.take(k)[pl[j].index] == es[pl[j].index]);
    }
    assert forall|j: int, l: int| 0 <= j < l < plan.len() implies plan[j].index < plan[l].index by {
        assert(plan[j]@ == pl[j]);
        assert(plan[l]@ == pl[l]);
    }
}

/// Plans the unpacking of the ZIP archive `v` into `dist`: the bytes that
/// do not open as an archive are refused; otherwise the entries are placed
/// in order, unsafe ones skipped, up to the first that does not lie under
/// the path of the first entry (`PrefixNotFound`) or cannot be read
/// (`UnreadableEntry`); the extractions before it are planned.
pub fn plan_unpack_zip(v: &[u8], dist: Option<&str>) -> (res: Result<(Vec<PlannedEntry>, Option<UnpackError>), UnpackError>)
    ensures
        zip_entries(v@) is None <==> res is Err,
        res matches Err(e) ==> e == UnpackError::InvalidArchive,
        res matches Ok((plan, stop)) ==> zip_entries(v@) matches Some((es, complete)) && {
            let d = dist_view(dist);
            let base = entries_base(es);
            let k = first_stop(es, d, base);
            &&& plan@.map_values(|p: PlannedEntry| p@) == planned(es.take(k), d, base)
            &&& k < es.len() ==> stop == Some(UnpackError::PrefixNotFound)
            &&& k == es.len() && !complete ==> stop == Some(UnpackError::UnreadableEntry)
            &&& k == es.len() && complete ==> stop is None
            &&& forall|j: int| 0 <= j < plan@.len() ==> stays_under(d, entry_target(#[trigger] plan@[j].action))
            &&& forall|j: int|
                0 <= j < plan@.len() ==> {
                    let p = #[trigger] plan@[j];
                    &&& p.index < k
                    &&& es[p.index as int].enclosed is Some
                    &&& p.unix_mode == es[p.index as int].unix_mode
                    &&& (p.action is CreateDir) == names_dir(es[p.index as int].name)
                }
            &&& forall|j: int, l: int| 0 <= j < l < plan@.len() ==> plan@[j].index < plan@[l].index
        },
{
    let (entries, complete) = match read_zip_entries(v) {
        Some(r) => r,
        None => return Err(UnpackError::InvalidArchive),
    };
    let ghost es = entries@.map_values(|e: ZipEntryInfo| e@);
    let ghost d = dist_view(dist);
    let ghost base = entries_base(es);
    let mut placement_state = ZipPlacement::new(dist);
    let mut plan: Vec<PlannedEntry> = Vec::new();
    let n = entries.len();
    assert(es.take(0) =~= Seq::<EntryView>::empty());
    assert(plan@.map_values(|p: PlannedEntry| p@) =~= planned(es.take(0), d, base));
    for i in 0..n
        invariant
            n == entries@.len(),
            es == entries@.map_values(|e: ZipEntryInfo| e@),
            zip_entries(v@) == Some((es, complete)),
            d == dist_view(dist),
            base == entries_base(es),
            opt_view(placement_state.dist) == d,
            i > 0 ==> placement_state.base@ == base,
            i == 0 ==> placement_state.base@ == Seq::<char>::empty(),
            first_stop(es.take(i as int), d, base) == i,
            plan@.map_values(|p: PlannedEntry| p@) == planned(es.take(i as int), d, base),
            forall|j: int| 0 <= j < entries@.len() ==> (#[trigger] entries@[j].enclosed matches Some(p) ==> contained(p@)),
            forall|j: int| 0 <= j < plan@.len() ==> stays_under(d, entry_target(#[trigger] plan@[j].action)),
    {
        let e = &entries[i];
        assert(es[i as int] == e@);
        assert(es.take(i + 1).drop_last() =~= es.take(i as int));
        assert(es.take(i + 1).last() == e@);
        let is_dir = match &e.name {
            Some(name) => {
                let len = name.as_str().unicode_len();
                len > 0 && name.as_str().get_char(len - 1) == '/'
            },
            None => false,
        };
        let enclosed = match &e.enclosed {
            Some(p) => Some(p.clone()),
            None => None,
        };
        match placement_state.place(i, enclosed, is_dir) {
            Ok(Some(action)) => {
                let ghost prev = plan@;
                let entry = PlannedEntry { index: i, action, unix_mode: e.unix_mode };
                plan.push(entry);
                assert(plan@.map_values(|p: PlannedEntry| p@) =~= prev.map_values(|p: PlannedEntry| p@).push(entry@));
            },
            Ok(None) => {},
            Err(err) => {
                assert(entry_stops(es[i as int], d, base));
                assert(first_stop(es.take(i + 1), d, base) == i);
                proof {
                    lemma_first_stop_prefix(es, d, base, i + 1);
                }
                assert(err == UnpackError::PrefixNotFound);
                proof {
                    lemma_plan_fields(plan@, es, d, base, i as int);
                }
                return Ok((plan, Some(err)));
            },
        }
    }
    assert(es.take(n as int) =~= es);
    proof {
        lemma_plan_fields(plan@, es, d, base, n as int);
    }
    if complete {
        Ok((plan, None))
    } else {
        Ok((plan, Some(UnpackError::UnreadableEntry)))
    }
}

} // verus!
