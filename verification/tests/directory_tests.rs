//! Tests of the directory scan: traversal, selection and message collection.

use exif_reader::directory_reader::{collect_messages, scan_files, select_files};
use exif_reader::message::{ExtractionError, PhotoData};
use exif_reader::producer::Publisher;

/// Walks the tree the way the program does: lazily, stopping at the first
/// traversal failure.
fn walk_tree(directory: &str) -> Vec<Result<(String, bool), walkdir::Error>> {
    let mut entries = Vec::new();
    for entry in walkdir::WalkDir::new(directory) {
        match entry {
            Ok(e) => entries.push(Ok((e.path().display().to_string(), e.file_type().is_dir()))),
            Err(err) => {
                entries.push(Err(err));
                break;
            }
        }
    }
    entries
}

fn push_u16(out: &mut Vec<u8>, v: u16) {
    out.extend_from_slice(&v.to_le_bytes());
}

fn push_u32(out: &mut Vec<u8>, v: u32) {
    out.extend_from_slice(&v.to_le_bytes());
}

/// A minimal little-endian TIFF stream: a parseable container with none of
/// the recognised tags.
fn plain_tiff() -> Vec<u8> {
    let mut out: Vec<u8> = Vec::new();
    out.extend_from_slice(b"II");
    push_u16(&mut out, 42);
    push_u32(&mut out, 8);
    push_u16(&mut out, 1);
    push_u16(&mut out, 0x0100); // ImageWidth
    push_u16(&mut out, 3); // SHORT
    push_u32(&mut out, 1);
    push_u32(&mut out, 17);
    push_u32(&mut out, 0);
    out
}

#[test]
fn test_walk_directory() {
    // The crate's own directory exists and holds files.
    let directory = ".";

    let result = select_files(walk_tree(directory));

    assert!(matches!(result, Ok(_)));
    assert!(result.unwrap().len() > 0);
}

#[test]
fn directory_reader_test_wrong_directory() {
    // A nonexistent root is a fatal traversal error and yields no paths.
    let directory = "../../no_such_directory_anywhere/";

    let result = select_files(walk_tree(directory));

    assert!(matches!(result, Err(_)));
}

#[test]
fn test_select_files_drops_directories() {
    // Directory entries are never handed to extraction; files keep their
    // traversal order.
    let entries: Vec<Result<(String, bool), walkdir::Error>> = vec![
        Ok((".".to_string(), true)),
        Ok(("./a.jpg".to_string(), false)),
        Ok(("./sub".to_string(), true)),
        Ok(("./sub/b.jpg".to_string(), false)),
    ];
    let paths = select_files(entries).unwrap();
    assert_eq!(paths, vec!["./a.jpg".to_string(), "./sub/b.jpg".to_string()]);
}

#[test]
fn test_collect_messages_skips_failures() {
    // Two extractable results among two failed ones: exactly two messages,
    // in input order, and the failures abort nothing.
    let rec1 = PhotoData::new("one.tif".to_string(), "one.tif".to_string());
    let rec2 = PhotoData::new("two.tif".to_string(), "two.tif".to_string());
    let results = vec![
        Ok(rec1),
        Err(ExtractionError::Unreadable),
        Ok(rec2),
        Err(ExtractionError::InvalidTimestamp),
    ];
    let msgs = collect_messages(results);
    assert_eq!(msgs.len(), 2);
    assert_eq!(msgs[0].key, "one.tif");
    assert_eq!(msgs[1].key, "two.tif");
}

#[test]
fn test_collect_messages_empty() {
    assert_eq!(collect_messages(Vec::new()).len(), 0);
    let only_failures = vec![
        Err::<PhotoData, _>(ExtractionError::Unreadable),
        Err(ExtractionError::Unreadable),
    ];
    assert_eq!(collect_messages(only_failures).len(), 0);
}

#[test]
fn test_scan_files_counts() {
    // One extractable file among two non-extractable ones: exactly one
    // message, and the scan ends with no fatal error.
    let files = vec![
        ("a.tif".to_string(), Some(plain_tiff())),
        ("garbage.bin".to_string(), Some(vec![9, 9, 9, 9])),
        ("unopenable.jpg".to_string(), None),
    ];
    let msgs = scan_files(files);
    assert_eq!(msgs.len(), 1);
    assert_eq!(msgs[0].key, "a.tif");
    assert_eq!(msgs[0].value.tmstmp, "");
}

#[test]
fn integration_test() {
    // Scan a mixed listing, then publish the one message with every
    // delivery confirmed.
    let files = vec![
        ("a.tif".to_string(), Some(plain_tiff())),
        ("unopenable.jpg".to_string(), None),
    ];
    let msgs = scan_files(files);
    assert_eq!(msgs.len(), 1);

    let mut publisher = Publisher::new(msgs.len());
    while let Some(i) = publisher.next_index() {
        assert!(i < msgs.len());
        publisher.record_delivery(true);
    }
    assert!(publisher.succeeded());
}
