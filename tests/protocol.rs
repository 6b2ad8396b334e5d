use wireproto::decoder::Cursor;
use wireproto::errors::DecodeError;
use wireproto::heartbeat::Heartbeat;
use wireproto::messages::{
    AuthenticationRequest, AuthenticationResponse, KeepAliveRequest, KeepAliveResponse,
};
use wireproto::outbox::Outbox;
use wireproto::packets::{
    ClientMessageType, ClientPackets, Incoming, ServerMessageType, ServerPackets,
};
use wireproto::session::{
    ClientEvent, ClientSession, ClientState, ServerEvent, ServerSession, SessionState, Step,
};
use wireproto::types::Hwid;

fn hwid() -> Hwid {
    Hwid { cpu_id: String::from("cpuA"), system_id: String::from("sysA") }
}

#[test]
fn tags_resolve_per_direction() {
    assert_eq!(ServerMessageType::from_tag(0), ServerMessageType::AuthenticationRequest);
    assert_eq!(ServerMessageType::from_tag(1), ServerMessageType::KeepAliveRequest);
    assert_eq!(ServerMessageType::from_tag(0x66), ServerMessageType::InvalidEvent);
    assert_eq!(ClientMessageType::from_tag(0), ClientMessageType::AuthenticationResponse);
    assert_eq!(ClientMessageType::from_tag(1), ClientMessageType::KeepAliveResponse);
    assert_eq!(ClientMessageType::from_tag(255), ClientMessageType::InvalidEvent);
    let mut c = Cursor::new(vec![]);
    assert_eq!(ServerMessageType::from(&mut c).unwrap_err(), DecodeError::IO);
}

#[test]
fn unknown_tag_reads_as_invalid() {
    let mut c = Cursor::new(vec![0, 0, 0, 2, 0x42, 9]);
    assert!(matches!(ServerPackets::read_frame(&mut c).unwrap(), Incoming::Invalid(0x42)));
    let mut c = Cursor::new(vec![0, 0, 0, 1, 7]);
    assert!(matches!(ClientPackets::read_frame(&mut c).unwrap(), Incoming::Invalid(7)));
}

#[test]
fn zero_length_reads_as_closed() {
    let mut c = Cursor::new(vec![0, 0, 0, 0]);
    assert!(matches!(ServerPackets::read_frame(&mut c).unwrap(), Incoming::Closed));
}

#[test]
fn every_truncation_of_a_frame_is_an_io_error() {
    let frame = ServerPackets::AuthenticationRequest(AuthenticationRequest { nonce: String::from("N1") })
        .to_bytes()
        .unwrap();
    for k in 1..frame.len() {
        let mut c = Cursor::new(frame[..k].to_vec());
        assert_eq!(ServerPackets::read_frame(&mut c).unwrap_err(), DecodeError::IO, "cut at {k}");
    }
    let frame = ClientPackets::KeepAliveResponse(KeepAliveResponse { timestamp: 3 }).to_bytes().unwrap();
    for k in 1..frame.len() {
        let mut c = Cursor::new(frame[..k].to_vec());
        assert_eq!(ClientPackets::read_frame(&mut c).unwrap_err(), DecodeError::IO);
    }
}

#[test]
fn frames_read_back_one_after_another() {
    let packets = vec![
        ServerPackets::AuthenticationRequest(AuthenticationRequest { nonce: String::from("ü") }),
        ServerPackets::KeepAliveRequest(KeepAliveRequest { timestamp: 10 }),
        ServerPackets::KeepAliveRequest(KeepAliveRequest { timestamp: -10 }),
    ];
    let stream = ServerPackets::encode_batch(&packets).unwrap();
    let mut separately = Vec::new();
    for p in &packets {
        separately.extend(p.to_bytes().unwrap());
    }
    assert_eq!(stream, separately);
    let mut c = Cursor::new(stream);
    match ServerPackets::read_frame(&mut c).unwrap() {
        Incoming::Packet(ServerPackets::AuthenticationRequest(r)) => assert_eq!(r.nonce, "ü"),
        other => panic!("unexpected {other:?}"),
    }
    match ServerPackets::read_frame(&mut c).unwrap() {
        Incoming::Packet(ServerPackets::KeepAliveRequest(r)) => assert_eq!(r.timestamp, 10),
        other => panic!("unexpected {other:?}"),
    }
    match ServerPackets::read_frame(&mut c).unwrap() {
        Incoming::Packet(ServerPackets::KeepAliveRequest(r)) => assert_eq!(r.timestamp, -10),
        other => panic!("unexpected {other:?}"),
    }
    assert_eq!(ServerPackets::read_frame(&mut c).unwrap_err(), DecodeError::IO);
}

#[test]
fn client_batch_equals_frames_concatenated() {
    let packets = vec![
        ClientPackets::AuthenticationResponse(AuthenticationResponse { hwid: hwid(), nonce: String::from("N1") }),
        ClientPackets::KeepAliveResponse(KeepAliveResponse { timestamp: 77 }),
    ];
    let stream = ClientPackets::encode_batch(&packets).unwrap();
    let a = packets[0].to_bytes().unwrap();
    let b = packets[1].to_bytes().unwrap();
    assert_eq!(stream, [a, b].concat());
    assert!(ClientPackets::encode_batch(&vec![]).unwrap().is_empty());
}

#[test]
fn end_to_end_authentication_and_heartbeat() {
    let mut server = ServerSession::new();
    let mut client = ClientSession::new(hwid());

    // server accepts and sends the request
    let first = match server.step(ServerEvent::Accepted(String::from("N1"))) {
        Step::Reply(p) => p.to_bytes().unwrap(),
        other => panic!("unexpected {other:?}"),
    };
    assert_eq!(&first[4..], &[0x00, 0, 0, 0, 2, b'N', b'1']);
    assert_eq!(server.state, SessionState::AuthPending);

    // client reads it and answers with its identity and the same nonce
    let incoming = ServerPackets::read_frame(&mut Cursor::new(first)).unwrap();
    let reply = match client.step(ClientEvent::Received(incoming)) {
        Step::Reply(p) => p.to_bytes().unwrap(),
        other => panic!("unexpected {other:?}"),
    };
    assert_eq!(reply[4], 0x00);
    let answer = ClientPackets::read_frame(&mut Cursor::new(reply)).unwrap();
    match &answer {
        Incoming::Packet(ClientPackets::AuthenticationResponse(r)) => {
            assert_eq!(r.nonce, "N1");
            assert_eq!(r.hwid.cpu_id, "cpuA");
            assert_eq!(r.hwid.system_id, "sysA");
        }
        other => panic!("unexpected {other:?}"),
    }
    assert!(matches!(server.step(ServerEvent::Received(answer)), Step::Continue));
    assert_eq!(server.state, SessionState::Authenticated);

    // a heartbeat goes out and comes back unchanged
    let beat = match server.step(ServerEvent::Tick(1_700_000_015)) {
        Step::Reply(p) => p.to_bytes().unwrap(),
        other => panic!("unexpected {other:?}"),
    };
    assert_eq!(beat[4], 0x01);
    let incoming = ServerPackets::read_frame(&mut Cursor::new(beat)).unwrap();
    let echo = match client.step(ClientEvent::Received(incoming)) {
        Step::Reply(ClientPackets::KeepAliveResponse(k)) => k,
        other => panic!("unexpected {other:?}"),
    };
    assert_eq!(echo.timestamp, 1_700_000_015);
    let echo = ClientPackets::KeepAliveResponse(echo).to_bytes().unwrap();
    let incoming = ClientPackets::read_frame(&mut Cursor::new(echo)).unwrap();
    assert!(matches!(server.step(ServerEvent::Received(incoming)), Step::Continue));
}

#[test]
fn server_sends_no_heartbeat_before_authentication() {
    let mut server = ServerSession::new();
    assert!(matches!(server.step(ServerEvent::Tick(5)), Step::Continue));
    assert!(matches!(server.step(ServerEvent::Accepted(String::from("n"))), Step::Reply(_)));
    assert!(matches!(server.step(ServerEvent::Tick(6)), Step::Continue));
}

#[test]
fn unexpected_messages_close_the_session() {
    let mut server = ServerSession::new();
    let _ = server.step(ServerEvent::Accepted(String::from("n")));
    let ka = Incoming::Packet(ClientPackets::KeepAliveResponse(KeepAliveResponse { timestamp: 1 }));
    assert!(matches!(server.step(ServerEvent::Received(ka)), Step::Close));
    assert_eq!(server.state, SessionState::Closed);
    assert!(matches!(server.step(ServerEvent::Tick(1)), Step::Close));

    let mut client = ClientSession::new(hwid());
    let req = || Incoming::Packet(ServerPackets::AuthenticationRequest(AuthenticationRequest { nonce: String::from("a") }));
    assert!(matches!(client.step(ClientEvent::Received(req())), Step::Reply(_)));
    assert!(matches!(client.step(ClientEvent::Received(req())), Step::Close));
    assert_eq!(client.state, ClientState::Closed);

    let mut client = ClientSession::new(hwid());
    assert!(matches!(client.step(ClientEvent::Received(Incoming::Invalid(9))), Step::Close));
    let mut server = ServerSession::new();
    assert!(matches!(server.step(ServerEvent::DecodeFailed), Step::Close));
}

#[test]
fn disconnect_closes_and_silences() {
    let mut client = ClientSession::new(hwid());
    assert!(matches!(client.step(ClientEvent::Received(Incoming::Closed)), Step::Close));
    let req = Incoming::Packet(ServerPackets::AuthenticationRequest(AuthenticationRequest { nonce: String::from("a") }));
    assert!(matches!(client.step(ClientEvent::Received(req)), Step::Close));

    let mut out: Outbox<u32> = Outbox::new(100);
    assert!(out.enqueue(1).is_ok());
    assert!(out.enqueue(2).is_ok());
    out.close();
    assert_eq!(out.enqueue(3), Err(3));
    assert!(out.drain().is_empty());
    assert!(out.is_closed());
}

#[test]
fn outbox_is_fifo_and_bounded() {
    let mut out: Outbox<u32> = Outbox::new(2);
    assert!(out.enqueue(1).is_ok());
    assert!(out.enqueue(2).is_ok());
    assert_eq!(out.enqueue(3), Err(3));
    assert_eq!(out.len(), 2);
    assert_eq!(out.drain(), vec![1, 2]);
    assert_eq!(out.len(), 0);
    assert!(out.enqueue(4).is_ok());
    assert_eq!(out.drain(), vec![4]);
}

#[test]
fn heartbeat_count_over_a_duration() {
    let mut hb = Heartbeat::new(1000, 15);
    let mut stamps = Vec::new();
    for t in 0..=100u64 {
        stamps.extend(hb.poll(t).into_iter().map(|k| k.timestamp));
    }
    assert_eq!(stamps.len(), 100 / 15);
    assert_eq!(stamps, vec![1015, 1030, 1045, 1060, 1075, 1090]);
    assert!(stamps.windows(2).all(|w| w[0] < w[1]));

    let mut hb = Heartbeat::new(0, 15);
    assert_eq!(hb.poll(100).len(), 6);
    assert_eq!(hb.poll(100).len(), 0);
    assert_eq!(hb.poll(50).len(), 0);
    assert_eq!(hb.poll(105).len(), 1);
    assert_eq!(hb.sent, 7);
}
