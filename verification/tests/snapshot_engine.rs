//! The tree serializer and the snapshot document codec on concrete trees.

use versions::StreamEntriesSet;
use versions::StreamEntry;
use versions::StreamEntryType;
use versions::VersionsError;
use versions::codec::decode;
use versions::codec::encode;
use versions::entry::canonicalize;
use versions::tree::Action;
use versions::tree::RawNode;
use versions::tree::build_snapshot;
use versions::tree::destream_dir;
use versions::tree::materialize_plan;
use versions::tree::stream_dir;

fn dir_entry(path: &[u8]) -> StreamEntry {
    StreamEntry {
        entry_type: StreamEntryType::Directory,
        relative_path: path.to_vec(),
        content: None,
    }
}

fn file_entry(path: &[u8], b64: &[u8]) -> StreamEntry {
    StreamEntry {
        entry_type: StreamEntryType::File,
        relative_path: path.to_vec(),
        content: Some(b64.to_vec()),
    }
}

fn entries_equal(a: &StreamEntry, b: &StreamEntry) -> bool {
    a.entry_type == b.entry_type && a.relative_path == b.relative_path && a.content == b.content
}

fn sets_equal(a: &StreamEntriesSet, b: &StreamEntriesSet) -> bool {
    a.entries.len() == b.entries.len()
        && a.entries.iter().zip(b.entries.iter()).all(|(x, y)| entries_equal(x, y))
}

#[test]
fn encode_writes_the_expected_document() {
    let set = StreamEntriesSet {
        entries: vec![dir_entry(b"d"), file_entry(b"f.txt", b"aGVsbG8=")],
    };
    let doc = encode(&set);
    assert_eq!(doc, b"D d\nF f.txt\nC aGVsbG8=\n".to_vec());
}

#[test]
fn encode_writes_an_empty_content_line_for_an_empty_file() {
    let set = StreamEntriesSet { entries: vec![file_entry(b"e", b"")] };
    assert_eq!(encode(&set), b"F e\nC \n".to_vec());
}

#[test]
fn decode_inverts_encode() {
    let set = StreamEntriesSet {
        entries: vec![
            dir_entry(b"d"),
            dir_entry(b"d/sub"),
            file_entry(b"d/f.txt", b"aGVsbG8="),
            file_entry(b"empty", b""),
        ],
    };
    let doc = encode(&set);
    let back = decode(&doc).expect("the encoded document decodes");
    assert!(sets_equal(&set, &back));
}

#[test]
fn paths_with_spaces_and_separator_bytes_round_trip() {
    let set = StreamEntriesSet {
        entries: vec![
            dir_entry(b"a b#c"),
            file_entry(b"a b#c/odd name.txt", b"eA=="),
        ],
    };
    let doc = encode(&set);
    let back = decode(&doc).expect("the encoded document decodes");
    assert!(sets_equal(&set, &back));
}

#[test]
fn decode_of_the_empty_document_is_the_empty_snapshot() {
    let back = decode(&Vec::new()).expect("empty document decodes");
    assert_eq!(back.entries.len(), 0);
}

#[test]
fn decode_rejects_an_unknown_tag() {
    assert_eq!(decode(&b"X d\n".to_vec()), Err(VersionsError::MalformedSnapshot));
}

#[test]
fn decode_rejects_an_empty_path() {
    assert_eq!(decode(&b"D \n".to_vec()), Err(VersionsError::MalformedSnapshot));
}

#[test]
fn decode_rejects_a_file_without_its_content_line() {
    assert_eq!(decode(&b"F f\n".to_vec()), Err(VersionsError::MalformedSnapshot));
    assert_eq!(decode(&b"F f\nD d\n".to_vec()), Err(VersionsError::MalformedSnapshot));
}

#[test]
fn decode_rejects_content_outside_the_base64_alphabet() {
    assert_eq!(decode(&b"F f\nC a!b\n".to_vec()), Err(VersionsError::MalformedSnapshot));
}

#[test]
fn decode_rejects_a_truncated_document() {
    assert_eq!(decode(&b"D d".to_vec()), Err(VersionsError::MalformedSnapshot));
    assert_eq!(decode(&b"F f\nC aGVsbG8=".to_vec()), Err(VersionsError::MalformedSnapshot));
}

#[test]
fn canonical_order_puts_directories_first_and_is_stable() {
    let set = StreamEntriesSet {
        entries: vec![
            file_entry(b"b.txt", b""),
            dir_entry(b"z"),
            file_entry(b"a.txt", b""),
            dir_entry(b"a"),
        ],
    };
    let c = canonicalize(&set);
    let paths: Vec<&[u8]> = c.entries.iter().map(|e| e.relative_path.as_slice()).collect();
    assert_eq!(paths, vec![&b"z"[..], &b"a"[..], &b"b.txt"[..], &b"a.txt"[..]]);
}

#[test]
fn build_snapshot_encodes_file_content_as_base64() {
    let nodes = vec![RawNode {
        is_dir: false,
        relative_path: b"f.txt".to_vec(),
        content: b"hello".to_vec(),
    }];
    let snap = build_snapshot(&nodes);
    assert_eq!(snap.entries.len(), 1);
    assert_eq!(snap.entries[0].content.as_deref(), Some(&b"aGVsbG8="[..]));
}

#[test]
fn capture_then_materialize_reproduces_the_tree() {
    let nodes = vec![
        RawNode { is_dir: false, relative_path: b"f.txt".to_vec(), content: b"hello".to_vec() },
        RawNode { is_dir: true, relative_path: b"d".to_vec(), content: Vec::new() },
        RawNode { is_dir: false, relative_path: b"d/g.bin".to_vec(), content: vec![0, 255, 7] },
    ];
    let snap = build_snapshot(&nodes);
    let plan = materialize_plan(&snap).expect("a captured snapshot materializes");
    assert_eq!(plan.len(), 3);
    let mut dirs: Vec<Vec<u8>> = Vec::new();
    let mut files: Vec<(Vec<u8>, Vec<u8>)> = Vec::new();
    for a in plan {
        match a {
            Action::MkDir(p) => dirs.push(p),
            Action::WriteFile(p, b) => files.push((p, b)),
        }
    }
    assert_eq!(dirs, vec![b"d".to_vec()]);
    files.sort();
    assert_eq!(
        files,
        vec![
            (b"d/g.bin".to_vec(), vec![0, 255, 7]),
            (b"f.txt".to_vec(), b"hello".to_vec()),
        ]
    );
}

#[test]
fn stream_and_destream_carry_a_tree_through_the_document() {
    let nodes = vec![
        RawNode { is_dir: false, relative_path: b"f".to_vec(), content: b"hello".to_vec() },
        RawNode { is_dir: true, relative_path: b"d".to_vec(), content: Vec::new() },
    ];
    let document = stream_dir(&nodes);
    assert_eq!(document, b"D d\nF f\nC aGVsbG8=\n".to_vec());
    let plan = destream_dir(&document).expect("the document destreams");
    assert_eq!(plan.len(), 2);
    assert!(plan.iter().any(|a| matches!(a, Action::MkDir(p) if p == &b"d".to_vec())));
    assert!(plan.iter().any(
        |a| matches!(a, Action::WriteFile(p, c) if p == &b"f".to_vec() && c == &b"hello".to_vec()),
    ));
    let bad = destream_dir(&b"not a document".to_vec());
    assert!(matches!(bad, Err(VersionsError::MalformedSnapshot)));
}

#[test]
fn materialize_rejects_a_file_entry_without_content() {
    let set = StreamEntriesSet {
        entries: vec![StreamEntry {
            entry_type: StreamEntryType::File,
            relative_path: b"f".to_vec(),
            content: None,
        }],
    };
    assert!(matches!(materialize_plan(&set), Err(VersionsError::MalformedSnapshot)));
}

#[test]
fn materialize_rejects_content_that_is_not_base64_text() {
    let set = StreamEntriesSet { entries: vec![file_entry(b"f", b"A")] };
    assert!(matches!(materialize_plan(&set), Err(VersionsError::BaseDecodeError)));
}
