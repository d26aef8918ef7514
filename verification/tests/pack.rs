use contract_runtime::pack::{archive_format, ArchiveFormat, UnpackError};

#[test]
fn zip_signatures_are_recognised() {
    assert_eq!(archive_format(&[0x50, 0x4b, 3, 4, 0]), Ok(ArchiveFormat::Zip));
    assert_eq!(archive_format(&[0x50, 0x4b, 5, 6]), Ok(ArchiveFormat::Zip));
    assert_eq!(archive_format(&[0x50, 0x4b, 7, 8]), Ok(ArchiveFormat::Zip));
    assert_eq!(
        archive_format(&[0x50, 0x4b, 0x30, 0x30, 0x50, 0x4b, 3, 4]),
        Ok(ArchiveFormat::Zip)
    );
}

#[test]
fn other_content_is_unsupported() {
    assert_eq!(archive_format(&[]), Err(UnpackError::UnsupportedFileType));
    assert_eq!(archive_format(&[0x50, 0x4b, 3]), Err(UnpackError::UnsupportedFileType));
    assert_eq!(archive_format(&[0x1f, 0x8b, 8, 0]), Err(UnpackError::UnsupportedFileType));
    assert_eq!(
        archive_format(&[0x50, 0x4b, 0x30, 0x30, 0x50, 0x4b, 3]),
        Err(UnpackError::UnsupportedFileType)
    );
}

use contract_runtime::pack::{EntryAction, ZipPlacement};

fn target(a: Option<EntryAction>) -> (bool, String) {
    match a {
        Some(EntryAction::CreateDir(p)) => (true, p),
        Some(EntryAction::WriteFile(p)) => (false, p),
        None => panic!("expected an action"),
    }
}

#[test]
fn entries_are_placed_under_dist() {
    let mut z = ZipPlacement::new(Some("/out"));
    assert_eq!(target(z.place(0, Some(String::from("proj/")), true).unwrap()), (true, String::from("/out/")));
    assert_eq!(
        target(z.place(1, Some(String::from("proj/src/a.go")), false).unwrap()),
        (false, String::from("/out/src/a.go"))
    );
    assert!(z.place(2, None, false).unwrap().is_none());
    assert_eq!(z.place(3, Some(String::from("other/b.go")), false).err(), Some(UnpackError::PrefixNotFound));
    assert_eq!(UnpackError::PrefixNotFound.message(), "prefix not found");
}

#[test]
fn entries_keep_their_paths_without_dist() {
    let mut z = ZipPlacement::new(None);
    assert_eq!(target(z.place(0, Some(String::from("a/b")), false).unwrap()), (false, String::from("a/b")));
    assert_eq!(target(z.place(1, Some(String::from("c/")), true).unwrap()), (true, String::from("c/")));
    assert_eq!(z.base, "a/b");
}
