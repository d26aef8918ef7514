use contract_runtime::pack::{plan_unpack_zip, EntryAction, PlannedEntry, UnpackError};
use std::io::{Cursor, Write};
use zip::write::SimpleFileOptions;
use zip::ZipWriter;

fn archive(entries: &[(&str, bool)]) -> Vec<u8> {
    let mut w = ZipWriter::new(Cursor::new(Vec::new()));
    let opts = SimpleFileOptions::default().compression_method(zip::CompressionMethod::Stored);
    for (name, dir) in entries {
        if *dir {
            w.add_directory(*name, opts).unwrap();
        } else {
            w.start_file(*name, opts).unwrap();
            w.write_all(b"content").unwrap();
        }
    }
    w.finish().unwrap().into_inner()
}

fn describe(plan: &[PlannedEntry]) -> Vec<(usize, bool, String)> {
    plan.iter()
        .map(|p| match &p.action {
            EntryAction::CreateDir(t) => (p.index, true, t.clone()),
            EntryAction::WriteFile(t) => (p.index, false, t.clone()),
        })
        .collect()
}

#[test]
fn zip_entries_are_planned_under_dist() {
    let v = archive(&[("proj/", true), ("proj/a.txt", false), ("proj/sub/b.txt", false)]);
    let (plan, stop) = plan_unpack_zip(&v, Some("/out")).ok().unwrap();
    assert_eq!(
        describe(&plan),
        vec![
            (0, true, String::from("/out/")),
            (1, false, String::from("/out/a.txt")),
            (2, false, String::from("/out/sub/b.txt")),
        ]
    );
    assert!(stop.is_none());
}

#[test]
fn zip_entries_keep_their_paths_without_dist() {
    let v = archive(&[("a/", true), ("a/b", false)]);
    let (plan, stop) = plan_unpack_zip(&v, None).ok().unwrap();
    assert_eq!(describe(&plan), vec![(0, true, String::from("a")), (1, false, String::from("a/b"))]);
    assert!(stop.is_none());
}

#[test]
fn zip_planning_stops_outside_the_first_entry() {
    let v = archive(&[("proj/", true), ("proj/a", false), ("other/b", false), ("proj/c", false)]);
    let (plan, stop) = plan_unpack_zip(&v, Some("d")).ok().unwrap();
    assert_eq!(describe(&plan), vec![(0, true, String::from("d/")), (1, false, String::from("d/a"))]);
    assert_eq!(stop, Some(UnpackError::PrefixNotFound));
}

#[test]
fn unsafe_zip_entries_are_skipped() {
    let v = archive(&[("proj/", true), ("../evil", false), ("proj/x", false)]);
    let (plan, stop) = plan_unpack_zip(&v, Some("d")).ok().unwrap();
    assert_eq!(describe(&plan), vec![(0, true, String::from("d/")), (2, false, String::from("d/x"))]);
    assert!(stop.is_none());
}

#[test]
fn bytes_that_are_no_zip_are_refused() {
    assert_eq!(plan_unpack_zip(b"not an archive", None).err(), Some(UnpackError::InvalidArchive));
    assert_eq!(UnpackError::InvalidArchive.message(), "invalid Zip archive");
}

#[test]
fn zip_targets_never_leave_the_working_directory() {
    let v = archive(&[("a/", true), ("a/../../x", false), ("/abs/y", false), ("a/./b", false)]);
    let (plan, stop) = plan_unpack_zip(&v, None).ok().unwrap();
    assert_eq!(
        describe(&plan),
        vec![(0, true, String::from("a")), (2, false, String::from("abs/y")), (3, false, String::from("a/b"))]
    );
    assert!(stop.is_none());
}

#[test]
fn zip_planning_stops_at_an_unreadable_entry() {
    let mut v = archive(&[("p/", true), ("p/a", false), ("p/b", false)]);
    let headers: Vec<usize> = (0..v.len() - 3).filter(|&i| v[i..i + 4] == [0x50, 0x4b, 3, 4]).collect();
    assert_eq!(headers.len(), 3);
    v[headers[2] + 2] = 9;
    let (plan, stop) = plan_unpack_zip(&v, Some("d")).ok().unwrap();
    assert_eq!(describe(&plan), vec![(0, true, String::from("d/")), (1, false, String::from("d/a"))]);
    assert_eq!(stop, Some(UnpackError::UnreadableEntry));
}
