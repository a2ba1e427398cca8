use morselink_core::resume::{resume_chunk, ResumeTracker};

#[test]
fn contiguous_acknowledged_offset() {
    let mut t = ResumeTracker::new(10, 4);
    assert_eq!(t.acknowledged(), 0);
    assert!(t.acknowledge(1));
    assert_eq!(t.acknowledged(), 0, "a gap at chunk 0 holds the offset back");
    assert!(t.acknowledge(0));
    assert_eq!(t.acknowledged(), 8);
    assert!(!t.acknowledge(3), "no chunk 3 in a 10-byte file of 4-byte chunks");
    assert_eq!(t.acknowledged(), 8);
    assert!(t.acknowledge(2));
    assert_eq!(t.acknowledged(), 10);
    assert!(t.acknowledge(1));
    assert_eq!(t.acknowledged(), 10);
}

#[test]
fn empty_file_is_fully_acknowledged() {
    let t = ResumeTracker::new(0, 4);
    assert_eq!(t.acknowledged(), 0);
}

#[test]
fn resuming_skips_covered_chunks() {
    assert_eq!(resume_chunk(10, 4, 0), 0);
    assert_eq!(resume_chunk(10, 4, 3), 0);
    assert_eq!(resume_chunk(10, 4, 4), 1);
    assert_eq!(resume_chunk(10, 4, 9), 2);
    assert_eq!(resume_chunk(10, 4, 10), 3);
    assert_eq!(resume_chunk(10, 4, 500), 3);
    assert_eq!(resume_chunk(0, 4, 0), 0);
}
