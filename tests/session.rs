use adatp_server::packet::{MessageType, Packet};
use adatp_server::session::{bytes_eq, resolve_room, HandshakeState, Session, Transport};

fn sid(b: u8) -> [u8; 16] {
    [b; 16]
}

fn established(transport: Transport, id: [u8; 16]) -> Session {
    let mut s = Session::new(transport);
    let a = s.on_packet(&Packet::new(MessageType::HandshakeInit, vec![], id));
    assert!(!a.close);
    let a = s.on_packet(&Packet::new(MessageType::HandshakeComplete, vec![], id));
    assert!(!a.close);
    assert!(s.is_established());
    s
}

fn join(s: &mut Session, room: &str) {
    let a = s.on_packet(&Packet::new(MessageType::JoinRoom, room.as_bytes().to_vec(), sid(0)));
    assert!(a.send.is_none() && a.publish.is_none() && !a.close);
}

fn text(id: [u8; 16], body: &str) -> Packet {
    Packet::new(MessageType::TextMessage, body.as_bytes().to_vec(), id)
}

#[test]
fn new_session_is_in_global_room() {
    let s = Session::new(Transport::Tcp);
    assert_eq!(s.room(), b"global");
    assert_eq!(s.state(), HandshakeState::AwaitingInit);
    assert_eq!(s.transport(), Transport::Tcp);
}

#[test]
fn handshake_response_echoes_session_and_key_slot() {
    let mut s = Session::new(Transport::WebSocket);
    let a = s.on_packet(&Packet::new(MessageType::HandshakeInit, vec![], sid(9)));
    let resp = Packet::from_bytes(&a.send.unwrap()).unwrap();
    assert_eq!(resp.header.msg_type, MessageType::HandshakeResponse);
    assert_eq!(resp.header.session_id, sid(9));
    assert_eq!(resp.payload, vec![0u8; 32]);
    assert_eq!(s.state(), HandshakeState::AwaitingComplete(sid(9)));
}

#[test]
fn first_packet_other_than_init_closes() {
    for t in [MessageType::TextMessage, MessageType::HandshakeComplete, MessageType::JoinRoom, MessageType::Unknown(77)] {
        let mut s = Session::new(Transport::Tcp);
        let a = s.on_packet(&Packet::new(t, vec![], sid(1)));
        assert!(a.close);
        assert!(a.send.is_none() && a.publish.is_none());
        assert!(s.is_closed());
        let a = s.on_packet(&Packet::new(MessageType::HandshakeInit, vec![], sid(1)));
        assert!(a.send.is_none() && !s.is_established());
    }
}

#[test]
fn second_packet_other_than_complete_closes() {
    let mut s = Session::new(Transport::WebSocket);
    s.on_packet(&Packet::new(MessageType::HandshakeInit, vec![], sid(1)));
    let a = s.on_packet(&text(sid(1), "too early"));
    assert!(a.close && a.publish.is_none());
    assert!(s.is_closed());
}

#[test]
fn complete_with_other_session_id_closes() {
    let mut s = Session::new(Transport::Tcp);
    s.on_packet(&Packet::new(MessageType::HandshakeInit, vec![], sid(1)));
    let a = s.on_packet(&Packet::new(MessageType::HandshakeComplete, vec![], sid(2)));
    assert!(a.close);
    assert!(s.is_closed());
}

#[test]
fn close_during_handshake_publishes_nothing() {
    let mut s = Session::new(Transport::Tcp);
    s.on_packet(&Packet::new(MessageType::HandshakeInit, vec![], sid(1)));
    let a = s.on_closed();
    assert!(a.close && a.publish.is_none());
}

#[test]
fn auth_request_is_answered_locally() {
    let mut s = established(Transport::Tcp, sid(5));
    let a = s.on_packet(&Packet::new(MessageType::AuthRequest, b"creds".to_vec(), sid(6)));
    assert!(a.publish.is_none() && !a.close);
    let resp = Packet::from_bytes(&a.send.unwrap()).unwrap();
    assert_eq!(resp.header.msg_type, MessageType::AuthSuccess);
    assert_eq!(resp.header.session_id, sid(5));
    assert_eq!(resp.payload, b"Welcome".to_vec());
}

#[test]
fn join_room_takes_valid_payload_only() {
    let mut s = established(Transport::WebSocket, sid(5));
    join(&mut s, "lobby");
    assert_eq!(s.room(), b"lobby");
    s.on_packet(&Packet::new(MessageType::JoinRoom, vec![0xff, 0xfe], sid(5)));
    assert_eq!(s.room(), b"lobby");
    s.on_packet(&Packet::new(MessageType::JoinRoom, vec![], sid(5)));
    assert_eq!(s.room(), b"lobby");
    join(&mut s, "caf\u{e9}");
    assert_eq!(s.room(), "caf\u{e9}".as_bytes());
}

#[test]
fn resolve_room_rule() {
    assert_eq!(resolve_room(b"global", b"x", true), b"x".to_vec());
    assert_eq!(resolve_room(b"global", b"x", false), b"global".to_vec());
    assert_eq!(resolve_room(b"global", b"", true), b"global".to_vec());
}

#[test]
fn bytes_eq_compares_contents() {
    assert!(bytes_eq(b"abc", b"abc"));
    assert!(!bytes_eq(b"abc", b"abd"));
    assert!(!bytes_eq(b"abc", b"ab"));
    assert!(bytes_eq(b"", b""));
}

#[test]
fn application_types_are_published_others_are_not() {
    let mut s = established(Transport::Tcp, sid(5));
    for t in [MessageType::TextMessage, MessageType::FileInit, MessageType::FileChunk, MessageType::FileComplete, MessageType::VoiceData, MessageType::VideoData] {
        let p = Packet::new(t, b"data".to_vec(), sid(5));
        let a = s.on_packet(&p);
        let (room, bytes) = a.publish.unwrap();
        assert_eq!(room, b"global".to_vec());
        assert_eq!(bytes, p.to_bytes());
    }
    for t in [MessageType::PresenceUpdate, MessageType::AuthSuccess, MessageType::HandshakeInit, MessageType::Unknown(250)] {
        let a = s.on_packet(&Packet::new(t, b"data".to_vec(), sid(5)));
        assert!(a.publish.is_none() && a.send.is_none() && !a.close);
    }
    assert!(s.is_established());
}

#[test]
fn bus_tuples_before_established_are_ignored() {
    let s = Session::new(Transport::Tcp);
    assert_eq!(s.on_bus(b"global", b"bytes"), None);
}

#[test]
fn room_isolation() {
    let mut a = established(Transport::Tcp, sid(1));
    let mut b = established(Transport::Tcp, sid(2));
    let mut c = established(Transport::WebSocket, sid(3));
    join(&mut a, "x");
    join(&mut b, "y");
    join(&mut c, "x");
    let (room, bytes) = a.on_packet(&text(sid(1), "hello")).publish.unwrap();
    assert_eq!(room, b"x".to_vec());
    assert_eq!(c.on_bus(&room, &bytes), Some(bytes.clone()));
    assert_eq!(b.on_bus(&room, &bytes), None);
    join(&mut b, "x");
    let (room, bytes) = a.on_packet(&text(sid(1), "again")).publish.unwrap();
    assert_eq!(b.on_bus(&room, &bytes), Some(bytes.clone()));
}

#[test]
fn presence_leave_on_disconnect_exactly_once() {
    let mut s = established(Transport::Tcp, sid(4));
    join(&mut s, "r");
    let a = s.on_packet(&Packet::new(MessageType::Disconnect, vec![], sid(4)));
    assert!(a.close);
    let (room, bytes) = a.publish.unwrap();
    assert_eq!(room, b"r".to_vec());
    let notice = Packet::from_bytes(&bytes).unwrap();
    assert_eq!(notice.header.msg_type, MessageType::PresenceUpdate);
    assert_eq!(notice.header.session_id, sid(4));
    assert_eq!(notice.payload, b"leave".to_vec());
    assert!(s.on_closed().publish.is_none());
    assert!(s.on_malformed().publish.is_none());
    assert!(s.on_packet(&text(sid(4), "late")).publish.is_none());
}

#[test]
fn presence_leave_on_transport_failure() {
    let mut s = established(Transport::WebSocket, sid(8));
    join(&mut s, "r");
    let a = s.on_closed();
    assert!(a.close);
    let (room, bytes) = a.publish.unwrap();
    assert_eq!(room, b"r".to_vec());
    let notice = Packet::from_bytes(&bytes).unwrap();
    assert_eq!(notice, Packet::new(MessageType::PresenceUpdate, b"leave".to_vec(), sid(8)));
    assert!(s.on_closed().publish.is_none());
}

#[test]
fn malformed_input_is_fatal_on_tcp_only() {
    let mut tcp = established(Transport::Tcp, sid(1));
    let a = tcp.on_malformed();
    assert!(a.close && a.publish.is_some());
    assert!(tcp.is_closed());
    let mut ws = established(Transport::WebSocket, sid(2));
    let a = ws.on_malformed();
    assert!(!a.close && a.publish.is_none() && a.send.is_none());
    assert!(ws.is_established());
}

#[test]
fn cross_transport_parity() {
    let mut tcp = established(Transport::Tcp, sid(1));
    let ws = established(Transport::WebSocket, sid(2));
    let p = text(sid(1), "parity");
    let (room, bytes) = tcp.on_packet(&p).publish.unwrap();
    let frame = ws.on_bus(&room, &bytes).unwrap();
    assert_eq!(frame, p.to_bytes());
    let q = Packet::from_bytes(&frame).unwrap();
    assert_eq!(q.header.msg_type, MessageType::TextMessage);
    assert_eq!(q.payload, b"parity".to_vec());
}

#[test]
fn handshake_join_and_receive_scenario() {
    let s_id = sid(0x5a);
    let mut first = Session::new(Transport::WebSocket);
    let a = first.on_packet(&Packet::new(MessageType::HandshakeInit, vec![], s_id));
    let resp = Packet::from_bytes(&a.send.unwrap()).unwrap();
    assert_eq!(resp, Packet::new(MessageType::HandshakeResponse, vec![0u8; 32], s_id));
    let a = first.on_packet(&Packet::new(MessageType::HandshakeComplete, vec![], s_id));
    assert!(!a.close && first.is_established());
    join(&mut first, "lobby");
    let mut second = established(Transport::Tcp, sid(0x11));
    join(&mut second, "lobby");
    let (room, bytes) = second.on_packet(&text(sid(0x11), "hi")).publish.unwrap();
    let got = Packet::from_bytes(&first.on_bus(&room, &bytes).unwrap()).unwrap();
    assert_eq!(got.header.msg_type, MessageType::TextMessage);
    assert_eq!(got.payload, b"hi".to_vec());
}

#[test]
fn bus_tuple_that_is_not_a_packet_is_skipped() {
    let s = established(Transport::Tcp, sid(1));
    let good = text(sid(2), "hello").to_bytes();
    let truncated = &good[..good.len() - 1];
    assert_eq!(s.on_bus(b"global", truncated), None);
    assert_eq!(s.on_bus(b"global", &good[..10]), None);
    assert_eq!(s.on_bus(b"global", b""), None);
    assert!(s.is_established());
    assert_eq!(s.on_bus(b"global", &good), Some(good.clone()));
}
