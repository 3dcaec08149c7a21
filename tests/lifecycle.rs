use firestarter::frame::{BNetCodec, BNetPacket};
use firestarter::hashing::PeerAddress;
use firestarter::header::Header;
use firestarter::session::{step, LightWeightSession, SessionError, SessionEvent, SessionState};

fn address() -> PeerAddress {
    PeerAddress { octets: vec![10, 0, 0, 2], port: 50000 }
}

fn frame(h: Header, body: Vec<u8>) -> Vec<u8> {
    let mut out = Vec::new();
    let mut codec = BNetCodec::new();
    codec.encode(BNetPacket::new(h, body), &mut out).unwrap();
    out
}

fn connect_frame(token: u32) -> Vec<u8> {
    // bind request: expects the authentication service, exposes
    // ChannelSubscriber under id 6.
    let mut bind = vec![0x0a, 0x04];
    bind.extend_from_slice(&233634817u32.to_le_bytes());
    bind.extend_from_slice(&[0x12, 0x07, 0x0d]);
    bind.extend_from_slice(&3213656212u32.to_le_bytes());
    bind.extend_from_slice(&[0x10, 0x06]);
    let mut body = vec![0x12, bind.len() as u8];
    body.extend(bind);
    let h = Header {
        service_id: 0,
        method_id: Some(1),
        token,
        size: Some(body.len() as u32),
        status: None,
    };
    frame(h, body)
}

fn handshaking(now: u64) -> SessionState {
    SessionState::Handshaking(LightWeightSession::new(address(), now))
}

#[test]
fn handshake_times_out() {
    let mut out = Vec::new();
    let s = step(handshaking(1000), SessionEvent::Tick, 6000, &mut out);
    assert!(matches!(s, SessionState::Closed(SessionError::Timeout)));
    let s = step(handshaking(1000), SessionEvent::Received(connect_frame(1)), 6000, &mut out);
    assert!(matches!(s, SessionState::Closed(SessionError::Timeout)));
    assert!(out.is_empty());
}

#[test]
fn handshake_waits_before_the_deadline() {
    let mut out = Vec::new();
    let s = step(handshaking(1000), SessionEvent::Tick, 5999, &mut out);
    match s {
        SessionState::Handshaking(session) => assert_eq!(session.deadline, 6000),
        _ => panic!("expected the handshake to go on"),
    }
}

#[test]
fn end_to_end_connect() {
    let mut out = Vec::new();
    let request = connect_frame(31);
    let (first, second) = request.split_at(5);
    let s = step(handshaking(0), SessionEvent::Received(first.to_vec()), 10, &mut out);
    assert!(matches!(s, SessionState::Handshaking(_)));
    assert!(out.is_empty());
    let s = step(s, SessionEvent::Received(second.to_vec()), 20, &mut out);
    match s {
        SessionState::Active(client) => {
            assert_eq!(client.address, address());
            assert!(client.router.inbound.is_empty());
        },
        _ => panic!("expected an active session"),
    }
    let mut codec = BNetCodec::new();
    let reply = codec.decode(&mut out).unwrap().unwrap();
    assert_eq!(reply.header.service_id, 254);
    assert_eq!(reply.header.method_id, Some(0));
    assert_eq!(reply.header.token, 31);
    assert_eq!(reply.header.size, Some(reply.body.len() as u32));
    // The bind response carries id 3 for the authentication service.
    assert!(reply.body.windows(5).any(|w| w == [0x22, 0x03, 0x0a, 0x01, 0x03]));
    assert!(out.is_empty());
}

#[test]
fn handshake_rejects_a_response_frame() {
    let mut out = Vec::new();
    let h = Header { service_id: 254, method_id: Some(0), token: 1, size: Some(0), status: None };
    let s = step(handshaking(0), SessionEvent::Received(frame(h, vec![])), 1, &mut out);
    assert!(matches!(s, SessionState::Closed(SessionError::MissingRequest)));
}

#[test]
fn handshake_rejects_another_method() {
    let mut out = Vec::new();
    let h = Header { service_id: 0, method_id: Some(3), token: 1, size: Some(0), status: None };
    let s = step(handshaking(0), SessionEvent::Received(frame(h, vec![])), 1, &mut out);
    assert!(matches!(s, SessionState::Closed(SessionError::RPC(_))));
    assert!(out.is_empty());
}

#[test]
fn handshake_rejects_encryption() {
    let mut out = Vec::new();
    let s = step(handshaking(0), SessionEvent::Received(vec![0x16, 0x03, 0x01, 0x00]), 1, &mut out);
    assert!(matches!(s, SessionState::Closed(SessionError::Codec(_))));
}

#[test]
fn disconnects_close_the_session() {
    let mut out = Vec::new();
    let s = step(handshaking(0), SessionEvent::Disconnected, 1, &mut out);
    assert!(matches!(s, SessionState::Closed(SessionError::ClientDisconnect)));
    let s = step(handshaking(0), SessionEvent::Received(connect_frame(2)), 1, &mut out);
    let s = step(s, SessionEvent::Disconnected, 2, &mut out);
    assert!(matches!(s, SessionState::Closed(SessionError::ClientDisconnect)));
    let s = step(s, SessionEvent::Tick, 3, &mut out);
    assert!(matches!(s, SessionState::Closed(SessionError::ClientDisconnect)));
}

#[test]
fn active_session_serves_requests() {
    let mut out = Vec::new();
    let s = step(handshaking(0), SessionEvent::Received(connect_frame(2)), 1, &mut out);
    let logon = Header { service_id: 3, method_id: Some(1), token: 8, size: Some(0), status: None };
    let s = step(s, SessionEvent::Received(frame(logon, vec![])), 100_000, &mut out);
    match s {
        SessionState::Active(mut client) => {
            let p = client.router.pop_outbound().unwrap();
            assert_eq!(p.header.token, 8);
            assert!(p.body.is_empty());
        },
        _ => panic!("expected an active session"),
    }
}

#[test]
fn deadline_saturates() {
    let s = LightWeightSession::new(address(), u64::MAX - 1);
    assert_eq!(s.deadline, u64::MAX);
    assert_eq!(*s.address(), address());
}

#[test]
fn active_session_processes_every_buffered_frame() {
    let mut out = Vec::new();
    let s = step(handshaking(0), SessionEvent::Received(connect_frame(2)), 1, &mut out);
    let logon = |token| Header { service_id: 3, method_id: Some(1), token, size: Some(0), status: None };
    let mut bytes = frame(logon(8), vec![]);
    bytes.extend(frame(logon(9), vec![]));
    bytes.extend(frame(logon(10), vec![]));
    let s = step(s, SessionEvent::Received(bytes), 2, &mut out);
    match s {
        SessionState::Active(mut client) => {
            let tokens: Vec<u32> =
                std::iter::from_fn(|| client.router.pop_outbound()).map(|p| p.header.token).collect();
            assert_eq!(tokens, vec![8, 9, 10]);
            assert!(client.router.inbound.is_empty());
        },
        _ => panic!("expected an active session"),
    }
}

#[test]
fn read_request_reports_the_codec_error() {
    let mut session = LightWeightSession::new(address(), 0);
    session.inbound = vec![0x16, 0x02];
    assert!(matches!(
        session.read_request(),
        Err(SessionError::Codec(firestarter::frame::CodecError::TLSEnabled))
    ));
}
