use morselink_core::config::EngineConfig;
use morselink_core::error::{EngineError, FailureSource};
use morselink_core::{cli, desktop, engine, identity, make_node_id, protocol_version};

#[test]
fn engine_config_defaults() {
    let c = EngineConfig::new();
    assert_eq!(c.listen_addr, "0.0.0.0");
    assert_eq!(c.port, 0);
    assert_eq!(c.server_name, "morselink.local");
    assert_eq!(c.device_name, "MorseLink device");
    assert!(c.enable_discovery);
    let d = EngineConfig::default();
    assert_eq!(d.device_name, "MorseLink device");
}

#[test]
fn version_string() {
    assert_eq!(protocol_version(), "morselink/1.0");
}

#[test]
fn node_ids_are_hex_of_low_clock_bits() {
    assert_eq!(identity::node_id_from_nanos(0), "morse-00000000");
    assert_eq!(identity::node_id_from_nanos(0xdead_beef), "morse-deadbeef");
    assert_eq!(identity::node_id_from_nanos(0x1_0000_00ab), "morse-000000ab");
    assert_eq!(identity::node_id_from_nanos((7u128 << 64) | 0x1234), "morse-00001234");
    let id = make_node_id();
    assert_eq!(id.len(), 14);
    assert!(id.starts_with("morse-"));
    assert!(id[6..].chars().all(|c| c.is_ascii_hexdigit() && !c.is_ascii_uppercase()));
    assert!(identity::epoch_nanos() > 0);
}

#[test]
fn engine_mime_table() {
    assert_eq!(engine::guess_mime("/sdcard/DCIM/IMG_1.JPG"), "image/jpeg");
    assert_eq!(engine::guess_mime("a.heif"), "image/heic");
    assert_eq!(engine::guess_mime("clip.MOV"), "video/mp4");
    assert_eq!(engine::guess_mime("song.m4a"), "audio/mpeg");
    assert_eq!(engine::guess_mime("r.xls"), "application/vnd.openxmlformats-officedocument.spreadsheetml.sheet");
    assert_eq!(engine::guess_mime("notes.txt"), "text/plain");
    assert_eq!(engine::guess_mime("noext"), "application/octet-stream");
    assert_eq!(engine::guess_mime(".bashrc"), "application/octet-stream");
}

#[test]
fn cli_and_desktop_mime_tables_differ() {
    assert_eq!(cli::mime_for("x.webp"), "image/webp");
    assert_eq!(desktop::mime_for("x.webp"), "application/octet-stream");
    assert_eq!(cli::mime_for("x.webm"), "video/mp4");
    assert_eq!(desktop::mime_for("x.webm"), "application/octet-stream");
    assert_eq!(desktop::mime_for("dir/x.MKV"), "video/mp4");
    assert_eq!(cli::mime_for("x.gif"), "application/octet-stream");
    assert_eq!(engine::guess_mime("x.gif"), "image/gif");
    assert_eq!(cli::mime_for("x.flac"), "audio/mpeg");
    assert_eq!(desktop::mime_for("x.pdf"), "application/pdf");
}

#[test]
fn file_metadata_for_sending() {
    let m = engine::file_meta_for_send("/tmp/photo.PNG", 1234);
    assert_eq!(m.name, "photo.PNG");
    assert_eq!(m.size, 1234);
    assert_eq!(m.mime, "image/png");
    assert_eq!(m.file_index, 1);
    let m = engine::file_meta_for_send("/", 1);
    assert_eq!(m.name, "file");
    let c = cli::file_meta("./a/b.mp3", 9, 2);
    assert_eq!(c.name, "b.mp3");
    assert_eq!(c.file_index, 3);
    assert_eq!(c.mime, "audio/mpeg");
    let d = desktop::file_meta("..", 0, 0);
    assert_eq!(d.name, "");
    assert_eq!(d.file_index, 1);
}

#[test]
fn receiving_status_text() {
    assert_eq!(desktop::receiving_status(45843, "/tmp/in"), "Receiving on UDP 45843, saving to /tmp/in");
    assert_eq!(desktop::receiving_status(0, "d"), "Receiving on UDP 0, saving to d");
}

#[test]
fn error_kinds_and_messages() {
    assert!(matches!(EngineError::transport("t"), EngineError::Transport(ref m) if m == "t"));
    assert!(matches!(EngineError::discovery("d"), EngineError::Discovery(ref m) if m == "d"));
    assert!(matches!(EngineError::transfer("x"), EngineError::Transfer(ref m) if m == "x"));
    assert_eq!(EngineError::transport("boom").message(), "transport error: boom");
    assert_eq!(EngineError::Io("disk".into()).message(), "io error: disk");
    assert_eq!(EngineError::discovery("bind").message(), "discovery error: bind");
    assert_eq!(EngineError::transfer("bad").message(), "transfer error: bad");
    let e = EngineError::from_failure(FailureSource::Serialization, "eof");
    assert!(matches!(e, EngineError::Transport(ref m) if m == "protocol serialization: eof"));
    let e = EngineError::from_failure(FailureSource::Io, "denied");
    assert!(matches!(e, EngineError::Io(ref m) if m == "denied"));
    let e = EngineError::from_failure(FailureSource::Finish, "closed");
    assert!(matches!(e, EngineError::Transport(ref m) if m == "finish: closed"));
    let e = EngineError::from_failure(FailureSource::Read, "reset");
    assert_eq!(e.message(), "transport error: read: reset");
}

#[test]
fn mime_guess_ignores_extension_case() {
    for (a, b) in [("a.Flac", "b.FLAC"), ("x/photo.jPeG", "y.jpeg"), ("doc.PPTX", "doc.pptx")] {
        assert_eq!(engine::guess_mime(a), engine::guess_mime(b));
        assert_eq!(cli::mime_for(a), cli::mime_for(b));
        assert_eq!(desktop::mime_for(a), desktop::mime_for(b));
    }
    assert_eq!(engine::guess_mime("a.Flac"), "audio/mpeg");
    assert_eq!(engine::guess_mime("noext"), "application/octet-stream");
    assert_eq!(engine::guess_mime("a.xyz"), "application/octet-stream");
}
