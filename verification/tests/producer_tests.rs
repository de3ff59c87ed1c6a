//! Tests of the ordered, fail-fast publish protocol.

use exif_reader::producer::Publisher;

#[test]
fn test_publish_all_delivered() {
    let mut p = Publisher::new(3);
    let mut sends: Vec<usize> = Vec::new();
    while let Some(i) = p.next_index() {
        sends.push(i);
        p.record_delivery(true);
    }
    assert_eq!(sends, vec![0, 1, 2]);
    assert!(p.succeeded());
    assert!(!p.has_failed());
}

#[test]
fn test_publish_fail_fast() {
    // Message 2 (0-indexed) of a batch of 5 fails delivery: messages 0 and 1
    // are confirmed, the failing send is the third and last, and nothing
    // after it is attempted.
    let failing: usize = 2;
    let mut p = Publisher::new(5);
    let mut sends: Vec<usize> = Vec::new();
    while let Some(i) = p.next_index() {
        sends.push(i);
        p.record_delivery(i != failing);
    }
    assert_eq!(sends, vec![0, 1, 2]);
    assert_eq!(sends.len(), failing + 1);
    assert!(p.has_failed());
    assert!(!p.succeeded());
}

#[test]
fn test_publish_first_fails() {
    let mut p = Publisher::new(4);
    let mut sends: usize = 0;
    while let Some(_) = p.next_index() {
        sends += 1;
        p.record_delivery(false);
    }
    assert_eq!(sends, 1);
    assert!(p.has_failed());
}

#[test]
fn test_publish_empty_batch() {
    let mut p = Publisher::new(0);
    assert_eq!(p.next_index(), None);
    assert!(p.succeeded());
    p = Publisher::new(1);
    assert_eq!(p.next_index(), Some(0));
}
