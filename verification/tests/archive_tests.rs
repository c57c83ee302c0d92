use std::io::Cursor;
use std::io::Write;

use mcmpi::archive::entry_name_is_safe;
use mcmpi::archive::extract_plan;
use mcmpi::archive::FsAction;
use mcmpi::error::InstallError;
use zip::write::SimpleFileOptions;
use zip::ZipWriter;

fn bytes(s: &str) -> Vec<u8> {
    s.as_bytes().to_vec()
}

fn archive_with(entries: &[(&str, Option<&[u8]>)]) -> Vec<u8> {
    let mut w = ZipWriter::new(Cursor::new(Vec::new()));
    for (name, contents) in entries {
        match contents {
            Some(data) => {
                w.start_file(*name, SimpleFileOptions::default()).unwrap();
                w.write_all(data).unwrap();
            }
            None => {
                w.add_directory(*name, SimpleFileOptions::default()).unwrap();
            }
        }
    }
    w.finish().unwrap().into_inner()
}

#[test]
fn safe_names_are_recognized() {
    assert!(entry_name_is_safe(&bytes("a.txt")));
    assert!(entry_name_is_safe(&bytes("sub/a.txt")));
    assert!(entry_name_is_safe(&bytes("sub/")));
    assert!(entry_name_is_safe(&bytes("..hidden")));
    assert!(entry_name_is_safe(&bytes("a/..b/c")));
    assert!(entry_name_is_safe(&bytes("a/.../b")));
}

#[test]
fn unsafe_names_are_rejected() {
    assert!(!entry_name_is_safe(&bytes("")));
    assert!(!entry_name_is_safe(&bytes("..")));
    assert!(!entry_name_is_safe(&bytes("../x")));
    assert!(!entry_name_is_safe(&bytes("a/../b")));
    assert!(!entry_name_is_safe(&bytes("a/..")));
    assert!(!entry_name_is_safe(&bytes("/etc/passwd")));
    assert!(!entry_name_is_safe(&bytes("../../evil")));
}

#[test]
fn plan_lists_actions_in_archive_order() {
    let data = archive_with(&[
        ("sub/", None),
        ("sub/a.txt", Some(b"alpha")),
        ("top.txt", Some(b"top")),
    ]);
    let acts = extract_plan(data, &bytes("Pack")).unwrap();
    let expected = vec![
        FsAction::MakeDir(bytes("Pack")),
        FsAction::MakeDir(bytes("Pack/sub/")),
        FsAction::MakeDir(bytes("Pack/sub")),
        FsAction::WriteFile(bytes("Pack/sub/a.txt"), b"alpha".to_vec()),
        FsAction::MakeDir(bytes("Pack")),
        FsAction::WriteFile(bytes("Pack/top.txt"), b"top".to_vec()),
    ];
    assert_eq!(acts.len(), expected.len());
    for (got, want) in acts.iter().zip(expected.iter()) {
        match (got, want) {
            (FsAction::MakeDir(a), FsAction::MakeDir(b)) => assert_eq!(a, b),
            (FsAction::WriteFile(a, ad), FsAction::WriteFile(b, bd)) => {
                assert_eq!(a, b);
                assert_eq!(ad, bd);
            }
            _ => panic!("action kinds differ"),
        }
    }
}

#[test]
fn traversal_entry_aborts_the_whole_plan() {
    let data = archive_with(&[
        ("fine.txt", Some(b"ok")),
        ("../../evil", Some(b"boom")),
    ]);
    assert!(matches!(
        extract_plan(data, &bytes("Pack")),
        Err(InstallError::UnsafePath)
    ));
}

#[test]
fn absolute_entry_aborts_the_whole_plan() {
    let data = archive_with(&[("/evil", Some(b"boom"))]);
    assert!(matches!(
        extract_plan(data, &bytes("Pack")),
        Err(InstallError::UnsafePath)
    ));
}

#[test]
fn invalid_container_is_an_open_error() {
    assert!(matches!(
        extract_plan(b"not a zip at all".to_vec(), &bytes("Pack")),
        Err(InstallError::ArchiveOpen)
    ));
}

#[test]
fn corrupt_entry_is_a_copy_error() {
    let mut w = ZipWriter::new(Cursor::new(Vec::new()));
    let stored = SimpleFileOptions::default().compression_method(zip::CompressionMethod::Stored);
    w.start_file("data.bin", stored).unwrap();
    w.write_all(&[0xAA; 64]).unwrap();
    let mut data = w.finish().unwrap().into_inner();
    // Flip one byte in the middle of the stored run so the entry's checksum
    // no longer matches; the container itself still parses.
    let run = data
        .windows(8)
        .position(|win| win.iter().all(|b| *b == 0xAA))
        .unwrap();
    data[run + 4] = 0xAB;
    assert!(matches!(
        extract_plan(data, &bytes("Pack")),
        Err(InstallError::Copy)
    ));
}

#[test]
fn empty_archive_still_creates_the_target() {
    let data = archive_with(&[]);
    let acts = extract_plan(data, &bytes("Pack")).unwrap();
    assert_eq!(acts.len(), 1);
    assert!(matches!(&acts[0], FsAction::MakeDir(p) if p == &bytes("Pack")));
}
