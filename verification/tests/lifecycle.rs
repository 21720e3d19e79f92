//! The version lifecycle: save, load, status and remove on concrete trees.

use flate2::Compression;
use flate2::write::GzEncoder;
use std::io::Read;
use std::io::Write;
use versions::ModulePtr;
use versions::Version;
use versions::VersionsError;
use versions::diff::FsView;
use versions::tree::RawNode;
use versions::tree::build_snapshot;

fn test_version() -> Version {
    Version {
        name: b"main".to_vec(),
        module: ModulePtr {
            repository_path: b"/repo".to_vec(),
            module_name: b"mod".to_vec(),
            module_dir: b"work".to_vec(),
        },
    }
}

fn file_node(path: &[u8], content: &[u8]) -> RawNode {
    RawNode { is_dir: false, relative_path: path.to_vec(), content: content.to_vec() }
}

fn dir_node(path: &[u8]) -> RawNode {
    RawNode { is_dir: true, relative_path: path.to_vec(), content: Vec::new() }
}

fn empty_fs() -> FsView {
    FsView { nonempty_dirs: Vec::new() }
}

fn contains_sub(hay: &[u8], needle: &[u8]) -> bool {
    hay.windows(needle.len().max(1)).any(|w| w == needle)
}

#[test]
fn save_then_load_returns_the_saved_snapshot() {
    let v = test_version();
    let nodes = vec![dir_node(b"d"), file_node(b"d/f.txt", b"hello"), file_node(b"g", b"")];
    let stored = v.save(&nodes).expect("saving succeeds");
    let loaded = v.load(Some(&stored)).expect("loading the stored object succeeds");
    let expected = build_snapshot(&nodes);
    assert_eq!(loaded.entries.len(), expected.entries.len());
    for (a, b) in loaded.entries.iter().zip(expected.entries.iter()) {
        assert_eq!(a.entry_type, b.entry_type);
        assert_eq!(a.relative_path, b.relative_path);
        assert_eq!(a.content, b.content);
    }
}

#[test]
fn the_stored_object_is_not_the_plain_document() {
    let v = test_version();
    let nodes = vec![file_node(b"f.txt", b"hello")];
    let stored = v.save(&nodes).expect("saving succeeds");
    assert!(!contains_sub(&stored, b"F f.txt"));
    assert!(!contains_sub(&stored, b"aGVsbG8="));
}

#[test]
fn the_stored_object_decompresses_to_the_canonical_document() {
    let v = test_version();
    // Walk order puts the file first; the canonical document lists the
    // directory first all the same.
    let nodes = vec![file_node(b"f", b"hello"), dir_node(b"d")];
    let stored = v.save(&nodes).expect("saving succeeds");
    let mut decoder = flate2::read::GzDecoder::new(stored.as_slice());
    let mut document = Vec::new();
    decoder.read_to_end(&mut document).expect("the object is a gzip stream");
    assert_eq!(document, b"D d\nF f\nC aGVsbG8=\n".to_vec());
}

#[test]
fn saving_twice_stores_the_same_snapshot_and_status_is_clean() {
    let v = test_version();
    let nodes = vec![dir_node(b"d"), file_node(b"d/a.txt", b"one"), file_node(b"b.txt", b"two")];
    let first = v.save(&nodes).expect("first save succeeds");
    let second = v.save(&nodes).expect("second save succeeds");
    let from_first = v.load(Some(&first)).expect("first object loads");
    let from_second = v.load(Some(&second)).expect("second object loads");
    assert_eq!(from_first.entries.len(), from_second.entries.len());
    for (a, b) in from_first.entries.iter().zip(from_second.entries.iter()) {
        assert_eq!(a.relative_path, b.relative_path);
        assert_eq!(a.content, b.content);
    }
    let report = v.status(Some(&second), &nodes, &empty_fs()).expect("status succeeds");
    assert_eq!(report, None);
}

#[test]
fn status_is_clean_when_the_walk_returns_entries_in_another_order() {
    let v = test_version();
    let before = vec![dir_node(b"d"), file_node(b"d/a.txt", b"x"), file_node(b"b.txt", b"y")];
    let stored = v.save(&before).expect("saving succeeds");
    let reordered = vec![file_node(b"b.txt", b"y"), file_node(b"d/a.txt", b"x"), dir_node(b"d")];
    let report = v.status(Some(&stored), &reordered, &empty_fs()).expect("status succeeds");
    assert_eq!(report, None);
}

#[test]
fn load_without_a_prior_save_reports_version_not_saved() {
    let v = test_version();
    match v.load(None) {
        Err(VersionsError::VersionNotSaved(name)) => assert_eq!(name, b"main".to_vec()),
        other => panic!("expected a version-not-saved failure, got {:?}", other),
    }
}

#[test]
fn remove_requires_a_stored_object_and_load_fails_afterwards() {
    let v = test_version();
    let nodes = vec![file_node(b"f", b"x")];
    let stored = v.save(&nodes).expect("saving succeeds");
    assert!(v.load(Some(&stored)).is_ok());
    assert!(v.remove(true).is_ok());
    match v.remove(false) {
        Err(VersionsError::VersionNotSaved(name)) => assert_eq!(name, b"main".to_vec()),
        other => panic!("expected a version-not-saved failure, got {:?}", other),
    }
    match v.load(None) {
        Err(VersionsError::VersionNotSaved(name)) => assert_eq!(name, b"main".to_vec()),
        other => panic!("expected a version-not-saved failure, got {:?}", other),
    }
}

#[test]
fn load_rejects_bytes_that_are_not_a_compressed_stream() {
    let v = test_version();
    assert_eq!(
        v.load(Some(&b"definitely not gzip".to_vec())).unwrap_err(),
        VersionsError::MalformedObject
    );
}

#[test]
fn load_rejects_a_compressed_stream_that_is_not_a_snapshot_document() {
    let v = test_version();
    let mut encoder = GzEncoder::new(Vec::new(), Compression::best());
    encoder.write_all(b"not a snapshot document").unwrap();
    let bogus = encoder.finish().unwrap();
    assert_eq!(v.load(Some(&bogus)).unwrap_err(), VersionsError::MalformedSnapshot);
}

#[test]
fn status_of_a_modified_file_shows_the_textual_patch() {
    let v = test_version();
    let before = vec![file_node(b"foo.txt", b"hello")];
    let stored = v.save(&before).expect("saving succeeds");
    let after = vec![file_node(b"foo.txt", b"hello world")];
    let report = v
        .status(Some(&stored), &after, &empty_fs())
        .expect("status succeeds")
        .expect("a change is reported");
    assert!(contains_sub(&report, b"work/foo.txt"));
    assert!(contains_sub(&report, b"-hello"));
    assert!(contains_sub(&report, b"+hello world"));
}

#[test]
fn status_reports_a_new_file_as_an_addition() {
    let v = test_version();
    let stored = v.save(&Vec::new()).expect("saving the empty tree succeeds");
    let after = vec![file_node(b"bar.txt", b"x")];
    let report = v
        .status(Some(&stored), &after, &empty_fs())
        .expect("status succeeds")
        .expect("the addition is reported");
    assert!(contains_sub(&report, b"+ work/bar.txt"));
    assert!(contains_sub(&report, b"+x"));
}

#[test]
fn status_reports_a_removed_file_once_and_not_its_emptied_directory() {
    let v = test_version();
    let before = vec![dir_node(b"dir"), file_node(b"dir/a.txt", b"gone")];
    let stored = v.save(&before).expect("saving succeeds");
    let after = vec![dir_node(b"dir")];
    // The directory is now empty on disk, so the header rule lets it
    // through; only the removed file produces a block.
    let report = v
        .status(Some(&stored), &after, &empty_fs())
        .expect("status succeeds")
        .expect("the removal is reported");
    assert!(contains_sub(&report, b"- work/dir/a.txt"));
    assert!(contains_sub(&report, b"-gone"));
    let text = String::from_utf8_lossy(&report);
    let header_count = text.lines().filter(|l| l.contains("work/dir")).count();
    assert_eq!(header_count, 1);
}

#[test]
fn status_suppresses_the_header_of_a_nonempty_directory() {
    let v = test_version();
    let stored = v.save(&Vec::new()).expect("saving succeeds");
    let after = vec![dir_node(b"dir"), file_node(b"dir/a.txt", b"new")];
    // The directory holds a reported file, so its own header is suppressed.
    let fs = FsView { nonempty_dirs: vec![b"/repo/work/dir".to_vec()] };
    let report = v
        .status(Some(&stored), &after, &fs)
        .expect("status succeeds")
        .expect("the additions are reported");
    let text = String::from_utf8_lossy(&report);
    assert!(text.contains("+ work/dir/a.txt"));
    assert!(!text.lines().any(|l| l == "+ work/dir"));
}

#[test]
fn status_with_no_stored_object_and_an_empty_tree_is_clean() {
    let v = test_version();
    let report = v.status(None, &Vec::new(), &empty_fs()).expect("status succeeds");
    assert_eq!(report, None);
}

#[test]
fn status_marks_an_added_empty_file() {
    let v = test_version();
    let stored = v.save(&Vec::new()).expect("saving succeeds");
    let after = vec![file_node(b"empty.txt", b"")];
    let report = v
        .status(Some(&stored), &after, &empty_fs())
        .expect("status succeeds")
        .expect("the empty file is reported");
    let text = String::from_utf8_lossy(&report);
    assert!(text.contains("+ work/empty.txt"));
    assert!(text.contains("<Empty file>"));
}
