use morselink_core::error::EngineError;
use morselink_core::protocol::{ControlMessage, FileMeta};
use morselink_core::session::{ReceiveSession, ReceiveStep, SendSession, SendStep};
use morselink_core::transfer::{chunk_header, send_chunk_size};

fn meta(name: &str, size: u64, index: u32) -> FileMeta {
    FileMeta { name: name.into(), size, mime: "application/octet-stream".into(), file_index: index }
}

fn transfer_message(e: EngineError) -> String {
    match e {
        EngineError::Transfer(m) => m,
        other => panic!("expected a transfer error, got {:?}", other),
    }
}

#[test]
fn full_conversation_between_sender_and_receiver() {
    let files = vec![meta("a.txt", 10, 7), meta("../b.bin", 3, 9)];
    let (mut sender, hello) = SendSession::start("Loopback sender", "client-node", 42, files);
    let mut receiver = ReceiveSession::new("Loopback receiver", "server-node");

    let ack = match receiver.on_control(Some(hello)).unwrap() {
        ReceiveStep::Greet { reply, peer_id, peer_device } => {
            assert_eq!(peer_id, "client-node");
            assert_eq!(peer_device, "Loopback sender");
            reply
        }
        _ => panic!("expected a greeting"),
    };
    match &ack {
        ControlMessage::HelloAck { protocol_version, device_name, peer_id } => {
            assert_eq!(protocol_version, "morselink/1.0");
            assert_eq!(device_name, "Loopback receiver");
            assert_eq!(peer_id, "server-node");
        }
        _ => panic!("expected HelloAck"),
    }

    let request = match sender.on_reply(Some(ack)).unwrap() {
        SendStep::SendRequest(m) => m,
        _ => panic!("expected a request"),
    };
    let accept = match receiver.on_control(Some(request)).unwrap() {
        ReceiveStep::AcceptTransfer { reply, outputs } => {
            assert_eq!(outputs.len(), 2);
            assert_eq!(outputs[0].name, "a.txt");
            assert_eq!(outputs[0].size, 10);
            assert_eq!(outputs[1].name, "__b.bin");
            assert_eq!(outputs[1].size, 3);
            reply
        }
        _ => panic!("expected acceptance"),
    };
    match &accept {
        ControlMessage::Accept { transfer_id } => assert_eq!(*transfer_id, 42),
        _ => panic!("expected Accept"),
    }

    let to_send = match sender.on_reply(Some(accept)).unwrap() {
        SendStep::SendFiles(files) => files,
        _ => panic!("expected files to send"),
    };
    assert_eq!(to_send.len(), 2);
    assert_eq!(to_send[0].file_index, 1);
    assert_eq!(to_send[1].file_index, 2);
    assert_eq!(to_send[1].name, "../b.bin");

    let cs = send_chunk_size(4);
    let h = chunk_header(42, &to_send[1], cs, 0);
    assert_eq!(receiver.data_target(&h).unwrap(), 1);
    assert_eq!(receiver.announced_file(1).size, 3);
    let h0 = chunk_header(42, &to_send[0], cs, 2);
    assert_eq!(receiver.data_target(&h0).unwrap(), 0);

    // unrelated messages are ignored while receiving
    let extra = ControlMessage::Accept { transfer_id: 1 };
    assert!(matches!(receiver.on_control(Some(extra)).unwrap(), ReceiveStep::Continue));

    let done = sender.finish();
    match &done {
        ControlMessage::Done { transfer_id, name } => {
            assert_eq!(*transfer_id, 42);
            assert_eq!(name, "batch");
        }
        _ => panic!("expected Done"),
    }
    assert!(matches!(receiver.on_control(Some(done)).unwrap(), ReceiveStep::Finish));
    // closed: data is refused, further events only finish
    assert!(receiver.data_target(&h).is_err());
    assert!(matches!(receiver.on_control(None).unwrap(), ReceiveStep::Finish));
}

#[test]
fn receiver_refuses_other_protocol_version() {
    let mut receiver = ReceiveSession::new("r", "rid");
    let hello = ControlMessage::Hello {
        protocol_version: "morselink/2.0".into(),
        device_name: "d".into(),
        peer_id: "p".into(),
    };
    let e = receiver.on_control(Some(hello)).unwrap_err();
    assert_eq!(transfer_message(e), "protocol mismatch: peer morselink/2.0, local morselink/1.0");
    assert!(matches!(receiver.on_control(None).unwrap(), ReceiveStep::Finish));
}

#[test]
fn receiver_errors_before_request() {
    let mut r = ReceiveSession::new("r", "rid");
    assert_eq!(transfer_message(r.on_control(None).unwrap_err()), "peer closed before hello");

    let mut r = ReceiveSession::new("r", "rid");
    let e = r.on_control(Some(ControlMessage::Accept { transfer_id: 3 })).unwrap_err();
    assert_eq!(transfer_message(e), "expected Hello");

    let mut r = ReceiveSession::new("r", "rid");
    r.on_control(Some(ControlMessage::hello("d", "p"))).unwrap();
    let e = r.on_control(Some(ControlMessage::hello("d", "p"))).unwrap_err();
    assert_eq!(transfer_message(e), "expected Request");

    let mut r = ReceiveSession::new("r", "rid");
    r.on_control(Some(ControlMessage::hello("d", "p"))).unwrap();
    assert_eq!(transfer_message(r.on_control(None).unwrap_err()), "peer closed before request");
}

#[test]
fn receiver_checks_file_index() {
    let mut r = ReceiveSession::new("r", "rid");
    let early = chunk_header(5, &meta("f", 4, 1), 4, 0);
    assert_eq!(transfer_message(r.data_target(&early).unwrap_err()), "bad file index");
    r.on_control(Some(ControlMessage::hello("d", "p"))).unwrap();
    r.on_control(Some(ControlMessage::Request { transfer_id: 5, files: vec![meta("f", 4, 1)] }))
        .unwrap();
    assert_eq!(r.data_target(&early).unwrap(), 0);
    let zero = chunk_header(5, &meta("f", 4, 0), 4, 0);
    assert_eq!(transfer_message(r.data_target(&zero).unwrap_err()), "bad file index");
    let beyond = chunk_header(5, &meta("f", 4, 2), 4, 0);
    assert_eq!(transfer_message(r.data_target(&beyond).unwrap_err()), "bad file index");
}

#[test]
fn sender_errors() {
    let (mut s, _) = SendSession::start("d", "n", 1, vec![]);
    assert_eq!(transfer_message(s.on_reply(None).unwrap_err()), "peer closed during handshake");

    let (mut s, _) = SendSession::start("d", "n", 1, vec![]);
    let e = s.on_reply(Some(ControlMessage::Accept { transfer_id: 1 })).unwrap_err();
    assert_eq!(transfer_message(e), "peer did not ack hello");

    let (mut s, _) = SendSession::start("d", "n", 1, vec![]);
    s.on_reply(Some(ControlMessage::hello_ack("r", "rid"))).unwrap();
    let e = s
        .on_reply(Some(ControlMessage::Reject { transfer_id: 1, reason: "busy".into() }))
        .unwrap_err();
    assert_eq!(transfer_message(e), "peer rejected: busy");

    let (mut s, _) = SendSession::start("d", "n", 1, vec![]);
    s.on_reply(Some(ControlMessage::hello_ack("r", "rid"))).unwrap();
    assert_eq!(transfer_message(s.on_reply(None).unwrap_err()), "peer closed during accept");

    let (mut s, _) = SendSession::start("d", "n", 1, vec![]);
    s.on_reply(Some(ControlMessage::hello_ack("r", "rid"))).unwrap();
    let e = s.on_reply(Some(ControlMessage::hello("x", "y"))).unwrap_err();
    assert_eq!(transfer_message(e), "peer did not accept");
}

#[test]
fn request_carries_files_unchanged() {
    let (mut s, hello) =
        SendSession::start("dev", "node", 77, vec![meta("one", 1, 5), meta("two", 2, 6)]);
    match hello {
        ControlMessage::Hello { protocol_version, device_name, peer_id } => {
            assert_eq!(protocol_version, "morselink/1.0");
            assert_eq!(device_name, "dev");
            assert_eq!(peer_id, "node");
        }
        _ => panic!("expected Hello"),
    }
    match s.on_reply(Some(ControlMessage::hello_ack("r", "rid"))).unwrap() {
        SendStep::SendRequest(ControlMessage::Request { transfer_id, files }) => {
            assert_eq!(transfer_id, 77);
            assert_eq!(files.len(), 2);
            assert_eq!(files[0].name, "one");
            assert_eq!(files[0].file_index, 5);
            assert_eq!(files[1].size, 2);
            assert_eq!(files[1].file_index, 6);
        }
        _ => panic!("expected a request"),
    }
}

#[test]
fn sender_refuses_other_protocol_version() {
    let (mut s, _) = SendSession::start("d", "n", 1, vec![meta("a", 1, 1)]);
    let ack = ControlMessage::HelloAck {
        protocol_version: "morselink/2.0".into(),
        device_name: "r".into(),
        peer_id: "rid".into(),
    };
    let e = s.on_reply(Some(ack)).unwrap_err();
    assert_eq!(transfer_message(e), "protocol mismatch: peer morselink/2.0, local morselink/1.0");
    // the conversation is over: an Accept no longer makes it send files
    assert!(matches!(
        s.on_reply(Some(ControlMessage::Accept { transfer_id: 1 })).unwrap(),
        SendStep::Continue
    ));
}
