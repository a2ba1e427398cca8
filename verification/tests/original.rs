use morselink_core::discovery::sanitize_host;
use morselink_core::protocol::{chunks_of, StreamHeader};
use morselink_core::transfer::sanitize_file_name;

#[test]
fn chunking_covers_whole_file() {
    // odd file size: 10 bytes with 4-byte chunks -> 4,4,2
    let chunks: Vec<(u64, u64)> = chunks_of(10, 4);
    assert_eq!(chunks, vec![(0, 4), (4, 4), (8, 2)]);
    // empty file -> zero chunks
    assert_eq!(chunks_of(0, 4).len(), 0);
    // exactly aligned
    assert_eq!(chunks_of(8, 4), vec![(0, 4), (4, 4)]);
}

#[test]
fn header_len_fits_u32() {
    let h = StreamHeader {
        transfer_id: 1,
        file_index: 1,
        chunk_index: 0,
        offset: 0,
        len: u32::MAX,
        file_size: u64::MAX,
        file_name: "x".into(),
        mime: String::new(),
        total_chunks: 1,
    };
    assert!(h.len as u64 <= u32::MAX as u64);
}

#[test]
fn sanitise_filenames() {
    assert_eq!(sanitize_file_name("../secret???.bin"), "__secret___.bin");
    assert_eq!(sanitize_file_name("photo (1).jpg"), "photo (1).jpg");
    assert_eq!(sanitize_file_name(""), "transfer.bin");
}

#[test]
fn host_sanitised() {
    assert_eq!(sanitize_host("John's Pixel 8"), "John-s-Pixel-8");
    assert_eq!(sanitize_host(""), "morselink");
}
