use morselink_core::protocol::FileMeta;
use morselink_core::transfer::{
    chunk_header, send_chunk_size, sanitize_file_name, stream_id_64, transfer_id_from,
};
use morselink_core::DEFAULT_CHUNK_SIZE;

#[test]
fn chunk_headers_describe_each_range() {
    let m = FileMeta { name: "v.mp4".into(), size: 10, mime: "video/mp4".into(), file_index: 3 };
    let cs = send_chunk_size(4);
    let h = chunk_header(9, &m, cs, 2);
    assert_eq!(h.transfer_id, 9);
    assert_eq!(h.file_index, 3);
    assert_eq!(h.chunk_index, 2);
    assert_eq!(h.offset, 8);
    assert_eq!(h.len, 2);
    assert_eq!(h.file_size, 10);
    assert_eq!(h.file_name, "v.mp4");
    assert_eq!(h.mime, "video/mp4");
    assert_eq!(h.total_chunks, 3);
}

#[test]
fn empty_file_still_announces_one_chunk() {
    assert_eq!(send_chunk_size(0), DEFAULT_CHUNK_SIZE);
    assert_eq!(DEFAULT_CHUNK_SIZE, 4 * 1024 * 1024);
    let m = FileMeta { name: "e".into(), size: 5, mime: String::new(), file_index: 1 };
    let h = chunk_header(1, &m, send_chunk_size(0), 0);
    assert_eq!(h.len, 5);
    assert_eq!(h.total_chunks, 1);
}

#[test]
fn stream_ids_mix_transfer_file_and_chunk() {
    let m = FileMeta { name: "x".into(), size: 1000, mime: String::new(), file_index: 1 };
    let h = chunk_header(0x1234, &m, 1, 0x1ff);
    assert_eq!(stream_id_64(&h, 2), (0x1234u64 << 16) ^ (2u64 << 8) ^ 0xff);
    assert_eq!(stream_id_64(&h, 0), 0x1234_00ff);
}

#[test]
fn transfer_id_mixing() {
    assert_eq!(transfer_id_from(5, 0, 0), 5);
    assert_eq!(transfer_id_from(0, 1, 0), 1 << 17);
    assert_eq!(transfer_id_from(0, 0, 3), 6);
    assert_eq!(transfer_id_from(0, 0xFFFF_FFFF, 0), (0xFFFF_FFFFu64).rotate_left(17));
    assert_eq!(transfer_id_from(1u128 << 70 | 7, 0, 0), 7);
}

#[test]
fn sanitising_edge_cases() {
    assert_eq!(sanitize_file_name("   "), "transfer.bin");
    assert_eq!(sanitize_file_name("  a b  "), "a b");
    assert_eq!(sanitize_file_name("a/b\\c"), "a_b_c");
    assert_eq!(sanitize_file_name("..."), "_.");
    assert_eq!(sanitize_file_name("\u{e9}t\u{e9}.png"), "\u{e9}t\u{e9}.png");
    assert_eq!(sanitize_file_name("tab\there"), "tab_here");
}

#[test]
fn dot_runs_never_survive_sanitising() {
    assert_eq!(sanitize_file_name(".."), "_");
    assert_eq!(sanitize_file_name("..."), "_.");
    assert_eq!(sanitize_file_name("a....b"), "a__b");
    assert_eq!(sanitize_file_name("../../etc/passwd"), "____etc_passwd");
    for name in ["..", "...", ". .", "x/../y", "....hidden", " .. "] {
        let s = sanitize_file_name(name);
        assert!(!s.is_empty());
        assert!(!s.contains(".."), "{name:?} gave {s:?}");
    }
}

#[test]
fn sanitised_names_have_no_separators_or_controls_and_are_stable() {
    assert_eq!(sanitize_file_name("a\\b/c"), "a_b_c");
    assert_eq!(sanitize_file_name("x\ty\u{7f}z\u{1}"), "x_y_z_");
    for name in ["../secret???.bin", "photo (1).jpg", "", "  ..  ", "a\\b/c\n", "Ünïcødé.txt", "...."] {
        let once = sanitize_file_name(name);
        assert!(!once.contains('/') && !once.contains('\\'));
        assert!(!once.chars().any(|c| (c as u32) < 32 || c == '\u{7f}'));
        assert_eq!(sanitize_file_name(&once), once, "{name:?}");
    }
}
