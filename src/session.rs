//! One connection's protocol logic: the handshake state machine, the session's
//! room, and what each inbound packet, bus tuple or transport event makes it do.
//!
//! The session performs no I/O. Each step returns the actions to perform:
//! bytes to send to the peer, a tuple to publish on the broadcast bus, and
//! whether to close the connection.
use vstd::prelude::*;
use crate::packet::{
    decode_spec, encode_spec, lemma_round_trip, MessageType, Packet, PacketView, ParseError,
    MAX_PAYLOAD_LEN, SESSION_ID_LEN,
};

verus! {

/// Whether the bytes are well-formed UTF-8, as `std::str::from_utf8` decides it.
pub uninterp spec fn utf8_valid(b: Seq<u8>) -> bool;

/// Relies on `std::str::from_utf8`: it accepts exactly the well-formed UTF-8
/// byte sequences, and its answer depends on the bytes alone.
#[verifier::external_body]
fn is_utf8(b: &[u8]) -> (r: bool)
    ensures
        r == utf8_valid(b@),
{
    std::str::from_utf8(b).is_ok()
}

/// The outer transport a session runs over.
#[derive(Clone, Copy, Debug, PartialEq, Eq, Structural)]
pub enum Transport {
    /// A raw byte stream; packets are framed by their header.
    Tcp,
    /// One packet in each binary WebSocket frame.
    WebSocket,
}

/// Where a connection stands in the handshake.
#[derive(Clone, Copy, Debug, PartialEq, Eq)]
pub enum HandshakeState {
    /// Nothing received yet; the first packet must be `HandshakeInit`.
    AwaitingInit,
    /// `HandshakeResponse` sent; the next packet must be `HandshakeComplete`
    /// with this session identifier.
    AwaitingComplete([u8; 16]),
    /// Normal traffic is routed.
    Established([u8; 16]),
    /// Terminal.
    Closed,
}

/// What a step asks the caller to do, in this order: send, publish, close.
#[derive(Debug)]
pub struct Actions {
    /// One encoded packet to write to the peer.
    pub send: Option<Vec<u8>>,
    /// A `(room, encoded packet)` tuple to publish on the broadcast bus.
    pub publish: Option<(Vec<u8>, Vec<u8>)>,
    /// Whether the connection ends.
    pub close: bool,
}

/// The mathematical value of `Actions`.
pub struct ActionsView {
    pub send: Option<Seq<u8>>,
    pub publish: Option<(Seq<u8>, Seq<u8>)>,
    pub close: bool,
}

impl View for Actions {
    type V = ActionsView;

    open spec fn view(&self) -> ActionsView {
        ActionsView {
            send: match self.send {
                Some(b) => Some(b@),
                None => None,
            },
            publish: match self.publish {
                Some((r, b)) => Some((r@, b@)),
                None => None,
            },
            close: self.close,
        }
    }
}

/// Doing nothing.
pub open spec fn no_actions() -> ActionsView {
    ActionsView { send: None, publish: None, close: false }
}

/// Ending the connection, with nothing else to do.
pub open spec fn close_only() -> ActionsView {
    ActionsView { send: None, publish: None, close: true }
}

/// The room a new session is in: `"global"`.
pub open spec fn default_room() -> Seq<u8> {
    seq![103u8, 108u8, 111u8, 98u8, 97u8, 108u8]
}

/// The payload of a departure notice: `"leave"`.
pub open spec fn leave_payload() -> Seq<u8> {
    seq![108u8, 101u8, 97u8, 118u8, 101u8]
}

/// The payload of an `AuthSuccess` answer: `"Welcome"`.
pub open spec fn welcome_payload() -> Seq<u8> {
    seq![87u8, 101u8, 108u8, 99u8, 111u8, 109u8, 101u8]
}

/// The placeholder key material of a `HandshakeResponse`: 32 zero bytes.
pub open spec fn key_slot() -> Seq<u8> {
    Seq::new(32, |i: int| 0u8)
}

/// A packet with no flags set.
pub open spec fn plain_packet(t: MessageType, session_id: Seq<u8>, payload: Seq<u8>) -> PacketView {
    PacketView { msg_type: t, session_id, flags: 0, payload }
}

/// The departure notice a session publishes into its last room.
pub open spec fn presence_leave(session_id: Seq<u8>) -> PacketView {
    plain_packet(MessageType::PresenceUpdate, session_id, leave_payload())
}

/// Whether a JoinRoom payload names a room: present and valid UTF-8.
pub open spec fn names_room(payload: Seq<u8>, payload_is_utf8: bool) -> bool {
    payload.len() > 0 && payload_is_utf8
}

/// The room after a JoinRoom packet: the one its payload names, or the
/// current one where the payload names none.
pub open spec fn room_after_join(current: Seq<u8>, payload: Seq<u8>, payload_is_utf8: bool) -> Seq<
    u8,
> {
    if names_room(payload, payload_is_utf8) {
        payload
    } else {
        current
    }
}

/// Where a session stands, with session identifiers as byte sequences.
pub enum Phase {
    AwaitingInit,
    AwaitingComplete(Seq<u8>),
    Established(Seq<u8>),
    Closed,
}

impl HandshakeState {
    pub open spec fn phase(self) -> Phase {
        match self {
            HandshakeState::AwaitingInit => Phase::AwaitingInit,
            HandshakeState::AwaitingComplete(sid) => Phase::AwaitingComplete(sid@),
            HandshakeState::Established(sid) => Phase::Established(sid@),
            HandshakeState::Closed => Phase::Closed,
        }
    }
}

/// The mathematical value of a session.
pub struct SessionView {
    pub transport: Transport,
    pub state: Phase,
    pub room: Seq<u8>,
}

impl SessionView {
    /// Session identifiers have their fixed width.
    pub open spec fn wf(self) -> bool {
        match self.state {
            Phase::AwaitingComplete(sid) => sid.len() == SESSION_ID_LEN,
            Phase::Established(sid) => sid.len() == SESSION_ID_LEN,
            _ => true,
        }
    }

    pub open spec fn with_state(self, state: Phase) -> SessionView {
        SessionView { state, ..self }
    }

    pub open spec fn with_room(self, room: Seq<u8>) -> SessionView {
        SessionView { room, ..self }
    }
}

/// The session after the transport ends, fails or cannot send, and what it
/// does: an established session tells its room that it left.
pub open spec fn on_closed_spec(s: SessionView) -> (SessionView, ActionsView) {
    match s.state {
        Phase::Closed => (s, no_actions()),
        Phase::Established(sid) => (
            s.with_state(Phase::Closed),
            ActionsView {
                send: None,
                publish: Some((s.room, encode_spec(presence_leave(sid)))),
                close: true,
            },
        ),
        _ => (s.with_state(Phase::Closed), close_only()),
    }
}

/// The session after bytes that are not a packet: fatal on a stream, where
/// framing is lost; dropped on WebSocket, whose frames keep their bounds.
pub open spec fn on_malformed_spec(s: SessionView) -> (SessionView, ActionsView) {
    match s.transport {
        Transport::Tcp => on_closed_spec(s),
        Transport::WebSocket => (s, no_actions()),
    }
}

/// The session after an inbound packet, and what it does.
pub open spec fn on_packet_spec(s: SessionView, p: PacketView) -> (SessionView, ActionsView) {
    match s.state {
        Phase::AwaitingInit => if p.msg_type == MessageType::HandshakeInit {
            (
                s.with_state(Phase::AwaitingComplete(p.session_id)),
                ActionsView {
                    send: Some(
                        encode_spec(
                            plain_packet(MessageType::HandshakeResponse, p.session_id, key_slot()),
                        ),
                    ),
                    publish: None,
                    close: false,
                },
            )
        } else {
            (s.with_state(Phase::Closed), close_only())
        },
        Phase::AwaitingComplete(sid) => if p.msg_type == MessageType::HandshakeComplete
            && p.session_id == sid {
            (s.with_state(Phase::Established(sid)), no_actions())
        } else {
            (s.with_state(Phase::Closed), close_only())
        },
        Phase::Established(sid) => match p.msg_type {
            MessageType::AuthRequest => (
                s,
                ActionsView {
                    send: Some(
                        encode_spec(
                            plain_packet(MessageType::AuthSuccess, sid, welcome_payload()),
                        ),
                    ),
                    publish: None,
                    close: false,
                },
            ),
            MessageType::JoinRoom => (
                s.with_room(room_after_join(s.room, p.payload, utf8_valid(p.payload))),
                no_actions(),
            ),
            MessageType::Disconnect => on_closed_spec(s),
            _ => if p.msg_type.is_application_spec() {
                (
                    s,
                    ActionsView {
                        send: None,
                        publish: Some((s.room, encode_spec(p))),
                        close: false,
                    },
                )
            } else {
                (s, no_actions())
            },
        },
        Phase::Closed => (s, no_actions()),
    }
}

/// What a session forwards to its peer from a bus tuple: the bytes unchanged
/// when it is established, the tuple's room is its own and the bytes are one
/// whole packet, else nothing. Bytes that do not decode would break the
/// framing of a stream peer, so they are skipped.
pub open spec fn on_bus_spec(s: SessionView, room: Seq<u8>, bytes: Seq<u8>) -> Option<Seq<u8>> {
    match s.state {
        Phase::Established(_) => if room == s.room && decode_spec(bytes) is Ok {
            Some(bytes)
        } else {
            None
        },
        _ => None,
    }
}


/// A closed session stays closed and does nothing, whatever happens next.
pub proof fn lemma_closed_is_terminal(s: SessionView, p: PacketView, room: Seq<u8>, bytes: Seq<u8>)
    requires
        s.state is Closed,
    ensures
        on_packet_spec(s, p) == (s, no_actions()),
        on_closed_spec(s) == (s, no_actions()),
        on_malformed_spec(s) == (s, no_actions()),
        on_bus_spec(s, room, bytes) is None,
{
}

/// A connection whose first packet is not `HandshakeInit` is closed; one
/// whose second packet is not `HandshakeComplete` is closed too. Neither
/// reaches `Established`, since a closed session stays closed.
pub proof fn lemma_handshake_ordering(s: SessionView, first: PacketView, second: PacketView)
    requires
        s.state is AwaitingInit,
    ensures
        first.msg_type != MessageType::HandshakeInit ==> {
            &&& on_packet_spec(s, first).0.state is Closed
            &&& on_packet_spec(s, first).1 == close_only()
        },
        first.msg_type == MessageType::HandshakeInit ==> {
            &&& on_packet_spec(s, first).0.state == Phase::AwaitingComplete(first.session_id)
            &&& (second.msg_type != MessageType::HandshakeComplete ==> {
                &&& on_packet_spec(on_packet_spec(s, first).0, second).0.state is Closed
                &&& on_packet_spec(on_packet_spec(s, first).0, second).1 == close_only()
            })
        },
{
}

/// Application traffic published by a session in one room reaches an
/// established session in that room and no session in another; once that
/// other session joins the room, it is reached too.
pub proof fn lemma_room_isolation(
    a: SessionView,
    b: SessionView,
    c: SessionView,
    p: PacketView,
    join: PacketView,
)
    requires
        a.state is Established,
        b.state is Established,
        c.state is Established,
        c.room == a.room,
        b.room != a.room,
        p.wf(),
        p.msg_type.is_application_spec(),
        join.msg_type == MessageType::JoinRoom,
        join.payload == a.room,
        a.room.len() > 0,
        utf8_valid(a.room),
    ensures
        on_packet_spec(a, p).1.publish == Some((a.room, encode_spec(p))),
        on_bus_spec(c, a.room, encode_spec(p)) == Some(encode_spec(p)),
        on_bus_spec(b, a.room, encode_spec(p)) is None,
        on_packet_spec(b, join).0.room == a.room,
        on_bus_spec(on_packet_spec(b, join).0, a.room, encode_spec(p)) == Some(encode_spec(p)),
{
    lemma_round_trip(p);
}

/// An established session that closes, by any cause or by `Disconnect`,
/// publishes one departure notice, stamped with its session identifier, into
/// its room, and publishes nothing after that.
pub proof fn lemma_presence_on_close(s: SessionView, bye: PacketView, p: PacketView)
    requires
        s.wf(),
        s.state is Established,
        bye.msg_type == MessageType::Disconnect,
    ensures
        on_closed_spec(s).1.publish == Some(
            (s.room, encode_spec(presence_leave(s.state->Established_0))),
        ),
        on_packet_spec(s, bye) == on_closed_spec(s),
        s.transport == Transport::Tcp ==> on_malformed_spec(s) == on_closed_spec(s),
        on_closed_spec(s).0.state is Closed,
        decode_spec(encode_spec(presence_leave(s.state->Established_0))) == Ok::<
            PacketView,
            ParseError,
        >(presence_leave(s.state->Established_0)),
        on_closed_spec(on_closed_spec(s).0).1.publish is None,
        on_malformed_spec(on_closed_spec(s).0).1.publish is None,
        on_packet_spec(on_closed_spec(s).0, p).1.publish is None,
{
    let sid = s.state->Established_0;
    assert(leave_payload().len() == 5);
    lemma_round_trip(presence_leave(sid));
}

/// A packet relayed between two sessions of one room, whatever transport each
/// uses, arrives as the same bytes and decodes to the same packet: the same
/// message type, session identifier, flags and payload.
pub proof fn lemma_cross_transport_parity(sender: SessionView, receiver: SessionView, p: PacketView)
    requires
        sender.state is Established,
        receiver.state is Established,
        receiver.room == sender.room,
        p.wf(),
        p.msg_type.is_application_spec(),
    ensures
        on_packet_spec(sender, p).1.publish == Some((sender.room, encode_spec(p))),
        on_bus_spec(receiver, sender.room, encode_spec(p)) == Some(encode_spec(p)),
        decode_spec(encode_spec(p)) == Ok::<PacketView, ParseError>(p),
{
    lemma_round_trip(p);
}

/// A copy of the bytes.
fn copy_bytes(b: &[u8]) -> (r: Vec<u8>)
    ensures
        r@ == b@,
{
    let mut out: Vec<u8> = Vec::with_capacity(b.len());
    let mut i: usize = 0;
    while i < b.len()
        invariant
            i <= b@.len(),
            out@ == b@.subrange(0, i as int),
        decreases b@.len() - i,
    {
        out.push(b[i]);
        i = i + 1;
    }
    assert(b@.subrange(0, b@.len() as int) =~= b@);
    out
}

/// Whether two byte sequences are equal.
pub fn bytes_eq(a: &[u8], b: &[u8]) -> (r: bool)
    ensures
        r == (a@ == b@),
{
    if a.len() != b.len() {
        return false;
    }
    let mut i: usize = 0;
    while i < a.len()
        invariant
            i <= a@.len(),
            a@.len() == b@.len(),
            forall|k: int| 0 <= k < i ==> a@[k] == b@[k],
        decreases a@.len() - i,
    {
        if a[i] != b[i] {
            return false;
        }
        i = i + 1;
    }
    assert(a@ =~= b@);
    true
}

/// Whether two session identifiers are equal.
fn ids_eq(a: &[u8; 16], b: &[u8; 16]) -> (r: bool)
    ensures
        r == (a@ == b@),
{
    let mut i: usize = 0;
    while i < 16
        invariant
            i <= 16,
            a@.len() == 16,
            b@.len() == 16,
            forall|k: int| 0 <= k < i ==> a@[k] == b@[k],
        decreases 16 - i,
    {
        if a[i] != b[i] {
            return false;
        }
        i = i + 1;
    }
    assert(a@ =~= b@);
    true
}

/// The placeholder key material.
fn zero_key() -> (r: Vec<u8>)
    ensures
        r@ == key_slot(),
{
    let mut out: Vec<u8> = Vec::with_capacity(32);
    let mut i: usize = 0;
    while i < 32
        invariant
            i <= 32,
            out@.len() == i,
            forall|k: int| 0 <= k < i ==> out@[k] == 0u8,
        decreases 32 - i,
    {
        out.push(0u8);
        i = i + 1;
    }
    assert(out@ =~= key_slot());
    out
}

/// The room a JoinRoom packet leads to, given whether its payload is valid
/// UTF-8: the payload when it is present and valid, else `current`.
pub fn resolve_room(current: &[u8], payload: &[u8], payload_is_utf8: bool) -> (r: Vec<u8>)
    ensures
        r@ == room_after_join(current@, payload@, payload_is_utf8),
{
    if payload.len() > 0 && payload_is_utf8 {
        copy_bytes(payload)
    } else {
        copy_bytes(current)
    }
}

/// One connection's protocol state.
pub struct Session {
    transport: Transport,
    state: HandshakeState,
    room: Vec<u8>,
}

impl View for Session {
    type V = SessionView;

    closed spec fn view(&self) -> SessionView {
        SessionView { transport: self.transport, state: self.state.phase(), room: self.room@ }
    }
}

impl Session {
    /// A session that awaits `HandshakeInit`, in room `"global"`.
    pub fn new(transport: Transport) -> (r: Session)
        ensures
            r@.wf(),
            r@ == (SessionView { transport, state: Phase::AwaitingInit, room: default_room() }),
    {
        let room: Vec<u8> = vec![103u8, 108u8, 111u8, 98u8, 97u8, 108u8];
        assert(room@ =~= default_room());
        Session { transport, state: HandshakeState::AwaitingInit, room }
    }

    /// A session that awaits `HandshakeInit`, in the given room.
    pub fn with_room(transport: Transport, room: Vec<u8>) -> (r: Session)
        ensures
            r@.wf(),
            r@ == (SessionView { transport, state: Phase::AwaitingInit, room: room@ }),
    {
        Session { transport, state: HandshakeState::AwaitingInit, room }
    }

    /// The transport this session runs over.
    pub fn transport(&self) -> (r: Transport)
        ensures
            r == self@.transport,
    {
        self.transport
    }

    /// The handshake state.
    pub fn state(&self) -> (r: HandshakeState)
        ensures
            r.phase() == self@.state,
    {
        self.state
    }

    /// The current room.
    pub fn room(&self) -> (r: &[u8])
        ensures
            r@ == self@.room,
    {
        self.room.as_slice()
    }

    /// Whether the handshake has completed and the session is open.
    pub fn is_established(&self) -> (r: bool)
        ensures
            r == self@.state is Established,
    {
        match self.state {
            HandshakeState::Established(_) => true,
            _ => false,
        }
    }

    /// Whether the session has ended.
    pub fn is_closed(&self) -> (r: bool)
        ensures
            r == self@.state is Closed,
    {
        match self.state {
            HandshakeState::Closed => true,
            _ => false,
        }
    }

    /// Ends the session because the transport ended, failed or could not send.
    pub fn on_closed(&mut self) -> (r: Actions)
        ensures
            final(self)@.wf(),
            (final(self)@, r@) == on_closed_spec(old(self)@),
    {
        match self.state {
            HandshakeState::Closed => Actions { send: None, publish: None, close: false },
            HandshakeState::Established(sid) => {
                let payload: Vec<u8> = vec![108u8, 101u8, 97u8, 118u8, 101u8];
                assert(payload@ =~= leave_payload());
                let notice = Packet::new(MessageType::PresenceUpdate, payload, sid);
                let bytes = notice.to_bytes();
                let room = copy_bytes(self.room.as_slice());
                self.state = HandshakeState::Closed;
                Actions { send: None, publish: Some((room, bytes)), close: true }
            },
            _ => {
                self.state = HandshakeState::Closed;
                Actions { send: None, publish: None, close: true }
            },
        }
    }

    /// Handles inbound bytes that do not decode to a packet.
    pub fn on_malformed(&mut self) -> (r: Actions)
        ensures
            final(self)@.wf(),
            (final(self)@, r@) == on_malformed_spec(old(self)@),
    {
        match self.transport {
            Transport::Tcp => self.on_closed(),
            Transport::WebSocket => Actions { send: None, publish: None, close: false },
        }
    }

    /// Handles one inbound packet.
    pub fn on_packet(&mut self, p: &Packet) -> (r: Actions)
        requires
            p@.payload.len() <= MAX_PAYLOAD_LEN,
        ensures
            final(self)@.wf(),
            (final(self)@, r@) == on_packet_spec(old(self)@, p@),
    {
        match self.state {
            HandshakeState::AwaitingInit => {
                if p.header.msg_type == MessageType::HandshakeInit {
                    let resp = Packet::new(
                        MessageType::HandshakeResponse,
                        zero_key(),
                        p.header.session_id,
                    );
                    let bytes = resp.to_bytes();
                    self.state = HandshakeState::AwaitingComplete(p.header.session_id);
                    Actions { send: Some(bytes), publish: None, close: false }
                } else {
                    self.state = HandshakeState::Closed;
                    Actions { send: None, publish: None, close: true }
                }
            },
            HandshakeState::AwaitingComplete(sid) => {
                if p.header.msg_type == MessageType::HandshakeComplete && ids_eq(
                    &p.header.session_id,
                    &sid,
                ) {
                    self.state = HandshakeState::Established(sid);
                    Actions { send: None, publish: None, close: false }
                } else {
                    self.state = HandshakeState::Closed;
                    Actions { send: None, publish: None, close: true }
                }
            },
            HandshakeState::Established(sid) => {
                match p.header.msg_type {
                    MessageType::AuthRequest => {
                        let payload: Vec<u8> = vec![87u8, 101u8, 108u8, 99u8, 111u8, 109u8, 101u8];
                        assert(payload@ =~= welcome_payload());
                        let resp = Packet::new(MessageType::AuthSuccess, payload, sid);
                        Actions { send: Some(resp.to_bytes()), publish: None, close: false }
                    },
                    MessageType::JoinRoom => {
                        let valid = is_utf8(p.payload.as_slice());
                        self.room = resolve_room(self.room.as_slice(), p.payload.as_slice(), valid);
                        Actions { send: None, publish: None, close: false }
                    },
                    MessageType::Disconnect => self.on_closed(),
                    _ => {
                        if p.header.msg_type.is_application() {
                            let room = copy_bytes(self.room.as_slice());
                            Actions { send: None, publish: Some((room, p.to_bytes())), close: false }
                        } else {
                            Actions { send: None, publish: None, close: false }
                        }
                    },
                }
            },
            HandshakeState::Closed => Actions { send: None, publish: None, close: false },
        }
    }

    /// What to forward to the peer from a bus tuple `(room, bytes)`.
    pub fn on_bus(&self, room: &[u8], bytes: &[u8]) -> (r: Option<Vec<u8>>)
        ensures
            match (r, on_bus_spec(self@, room@, bytes@)) {
                (Some(b), Some(c)) => b@ == c,
                (None, None) => true,
                _ => false,
            },
    {
        match self.state {
            HandshakeState::Established(_) => {
                if !bytes_eq(room, self.room.as_slice()) {
                    return None;
                }
                match Packet::from_bytes(bytes) {
                    Ok(_) => Some(copy_bytes(bytes)),
                    Err(_) => None,
                }
            },
            _ => None,
        }
    }
}

} // verus!
