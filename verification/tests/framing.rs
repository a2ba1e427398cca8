use morselink_core::error::EngineError;
use morselink_core::protocol::{
    chunk_at, chunk_count, chunks_of, decode_frame, encode_frame, frame_length,
    remaining_after_write, MAX_CTRL_FRAME, MAX_HEADER_FRAME,
};

fn transfer_message(e: &EngineError) -> String {
    match e {
        EngineError::Transfer(m) => m.clone(),
        other => panic!("expected a transfer error, got {:?}", other),
    }
}

#[test]
fn encode_prefixes_big_endian_length() {
    let v = encode_frame(b"{\"a\":1}").unwrap();
    assert_eq!(&v[..4], &[0, 0, 0, 7]);
    assert_eq!(&v[4..], b"{\"a\":1}");
    let big = vec![7u8; 0x0102_03];
    let v = encode_frame(&big).unwrap();
    assert_eq!(&v[..4], &[0, 0x01, 0x02, 0x03]);
    assert_eq!(v.len(), 4 + big.len());
}

#[test]
fn encode_refuses_oversized_payload() {
    let ok = vec![1u8; MAX_CTRL_FRAME];
    assert!(encode_frame(&ok).is_ok());
    let too_big = vec![1u8; MAX_CTRL_FRAME + 1];
    let e = encode_frame(&too_big).unwrap_err();
    assert_eq!(transfer_message(&e), "frame exceeds max size");
}

#[test]
fn frame_round_trips_with_trailing_bytes() {
    let payload = b"hello frame".to_vec();
    let mut stream = encode_frame(&payload).unwrap();
    stream.extend_from_slice(b"next frame bytes");
    assert_eq!(decode_frame(&stream, None).unwrap(), Some(payload.clone()));
    assert_eq!(decode_frame(&stream, Some(MAX_HEADER_FRAME)).unwrap(), Some(payload));
}

#[test]
fn empty_stream_has_no_frame() {
    assert_eq!(decode_frame(&[], None).unwrap(), None);
    assert_eq!(frame_length(0, [9, 9, 9, 9], None).unwrap(), None);
}

#[test]
fn bad_lengths_are_refused() {
    let e = decode_frame(&[0, 0, 0, 0, 1, 2], None).unwrap_err();
    assert_eq!(transfer_message(&e), "bad frame length");
    // above the header cap
    let e = frame_length(4, [0, 1, 0, 1], Some(MAX_HEADER_FRAME)).unwrap_err();
    assert_eq!(transfer_message(&e), "bad frame length");
    // exactly at the header cap
    assert_eq!(frame_length(4, [0, 1, 0, 0], Some(MAX_HEADER_FRAME)).unwrap(), Some(65536));
    // above the control cap
    assert!(frame_length(4, [0, 0x10, 0, 1], None).is_err());
    assert_eq!(frame_length(4, [0, 0x10, 0, 0], None).unwrap(), Some(1 << 20));
}

#[test]
fn short_stream_is_zero_filled() {
    // prefix says 4 bytes, only 2 arrive
    assert_eq!(decode_frame(&[0, 0, 0, 4, 0xAA, 0xBB], None).unwrap(), Some(vec![0xAA, 0xBB, 0, 0]));
    // two bytes of prefix only: the rest of the prefix reads as zero
    let e = decode_frame(&[0, 0], None).unwrap_err();
    assert_eq!(transfer_message(&e), "bad frame length");
    // one prefix byte 0x01 -> length 0x01000000, above the cap
    assert!(decode_frame(&[1], None).is_err());
    // partial prefix [0,0,1] -> length 256
    assert_eq!(frame_length(3, [0, 0, 1, 0], None).unwrap(), Some(256));
}

#[test]
fn write_progress_detects_stalls() {
    assert_eq!(remaining_after_write(10, 4).unwrap(), 6);
    assert_eq!(remaining_after_write(10, 10).unwrap(), 0);
    let e = remaining_after_write(10, 0).unwrap_err();
    assert_eq!(transfer_message(&e), "stream stalled while writing");
}

#[test]
fn chunk_count_and_index_agree_with_list() {
    assert_eq!(chunk_count(10, 4), 3);
    assert_eq!(chunk_count(8, 4), 2);
    assert_eq!(chunk_count(0, 4), 0);
    assert_eq!(chunk_count(5, 0), 5); // chunk size 0 counts as 1
    assert_eq!(chunk_at(10, 4, 2), (8, 2));
    let list = chunks_of(3 * 262144 + 173, 262144);
    assert_eq!(list.len(), 4);
    assert_eq!(list[3], (786432, 173));
    let total: u64 = list.iter().map(|c| c.1).sum();
    assert_eq!(total, 3 * 262144 + 173);
    assert_eq!(chunk_at(u64::MAX, u64::MAX, 0), (0, u64::MAX));
}
