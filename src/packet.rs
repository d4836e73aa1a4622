//! The binary packet format.
//!
//! A packet on the wire is a fixed header followed by its payload:
//! one byte of message type, sixteen bytes of session identifier, one byte of
//! flags, a big-endian `u32` payload length, then exactly that many bytes.
use vstd::prelude::*;

verus! {

/// Bytes in the fixed header.
pub const HEADER_LEN: usize = 22;

/// Bytes in a session identifier.
pub const SESSION_ID_LEN: usize = 16;

/// The largest payload length a header may declare.
pub const MAX_PAYLOAD_LEN: usize = 16777216;

/// The kind of a packet. Tags outside the known range decode into `Unknown`.
#[derive(Clone, Copy, Debug, PartialEq, Eq, Structural)]
pub enum MessageType {
    HandshakeInit,
    HandshakeResponse,
    HandshakeComplete,
    AuthRequest,
    AuthSuccess,
    JoinRoom,
    TextMessage,
    FileInit,
    FileChunk,
    FileComplete,
    VoiceData,
    VideoData,
    PresenceUpdate,
    Disconnect,
    Unknown(u8),
}

/// The wire tag of a message type.
pub open spec fn tag_of(t: MessageType) -> u8 {
    match t {
        MessageType::HandshakeInit => 1,
        MessageType::HandshakeResponse => 2,
        MessageType::HandshakeComplete => 3,
        MessageType::AuthRequest => 4,
        MessageType::AuthSuccess => 5,
        MessageType::JoinRoom => 6,
        MessageType::TextMessage => 7,
        MessageType::FileInit => 8,
        MessageType::FileChunk => 9,
        MessageType::FileComplete => 10,
        MessageType::VoiceData => 11,
        MessageType::VideoData => 12,
        MessageType::PresenceUpdate => 13,
        MessageType::Disconnect => 14,
        MessageType::Unknown(b) => b,
    }
}

/// Whether a tag names one of the known message types.
pub open spec fn is_known_tag(b: u8) -> bool {
    1 <= b <= 14
}

/// The message type that a wire tag stands for.
pub open spec fn type_of_tag(b: u8) -> MessageType {
    if b == 1 {
        MessageType::HandshakeInit
    } else if b == 2 {
        MessageType::HandshakeResponse
    } else if b == 3 {
        MessageType::HandshakeComplete
    } else if b == 4 {
        MessageType::AuthRequest
    } else if b == 5 {
        MessageType::AuthSuccess
    } else if b == 6 {
        MessageType::JoinRoom
    } else if b == 7 {
        MessageType::TextMessage
    } else if b == 8 {
        MessageType::FileInit
    } else if b == 9 {
        MessageType::FileChunk
    } else if b == 10 {
        MessageType::FileComplete
    } else if b == 11 {
        MessageType::VoiceData
    } else if b == 12 {
        MessageType::VideoData
    } else if b == 13 {
        MessageType::PresenceUpdate
    } else if b == 14 {
        MessageType::Disconnect
    } else {
        MessageType::Unknown(b)
    }
}

impl MessageType {
    /// A message type is valid unless it is `Unknown` with a tag that a known
    /// type owns.
    pub open spec fn wf(self) -> bool {
        match self {
            MessageType::Unknown(b) => !is_known_tag(b),
            _ => true,
        }
    }

    /// Application traffic, relayed to the sender's room.
    pub open spec fn is_application_spec(self) -> bool {
        match self {
            MessageType::TextMessage | MessageType::FileInit | MessageType::FileChunk
            | MessageType::FileComplete | MessageType::VoiceData | MessageType::VideoData => true,
            _ => false,
        }
    }

    /// Whether this type is application traffic.
    pub fn is_application(&self) -> (r: bool)
        ensures
            r == self.is_application_spec(),
    {
        match self {
            MessageType::TextMessage | MessageType::FileInit | MessageType::FileChunk
            | MessageType::FileComplete | MessageType::VoiceData | MessageType::VideoData => true,
            _ => false,
        }
    }

    /// The wire tag of this type.
    pub fn to_tag(&self) -> (r: u8)
        ensures
            r == tag_of(*self),
    {
        match self {
            MessageType::HandshakeInit => 1,
            MessageType::HandshakeResponse => 2,
            MessageType::HandshakeComplete => 3,
            MessageType::AuthRequest => 4,
            MessageType::AuthSuccess => 5,
            MessageType::JoinRoom => 6,
            MessageType::TextMessage => 7,
            MessageType::FileInit => 8,
            MessageType::FileChunk => 9,
            MessageType::FileComplete => 10,
            MessageType::VoiceData => 11,
            MessageType::VideoData => 12,
            MessageType::PresenceUpdate => 13,
            MessageType::Disconnect => 14,
            MessageType::Unknown(b) => *b,
        }
    }

    /// The message type of a wire tag; unknown tags are kept as `Unknown`.
    pub fn from_tag(b: u8) -> (r: MessageType)
        ensures
            r == type_of_tag(b),
            r.wf(),
    {
        match b {
            1 => MessageType::HandshakeInit,
            2 => MessageType::HandshakeResponse,
            3 => MessageType::HandshakeComplete,
            4 => MessageType::AuthRequest,
            5 => MessageType::AuthSuccess,
            6 => MessageType::JoinRoom,
            7 => MessageType::TextMessage,
            8 => MessageType::FileInit,
            9 => MessageType::FileChunk,
            10 => MessageType::FileComplete,
            11 => MessageType::VoiceData,
            12 => MessageType::VideoData,
            13 => MessageType::PresenceUpdate,
            14 => MessageType::Disconnect,
            _ => MessageType::Unknown(b),
        }
    }
}

/// Tags and types correspond one to one on valid types.
pub proof fn lemma_tag_round_trip(t: MessageType)
    requires
        t.wf(),
    ensures
        type_of_tag(tag_of(t)) == t,
{
}


/// Why a byte sequence is not a packet.
#[derive(Clone, Copy, Debug, PartialEq, Eq, Structural)]
pub enum ParseError {
    /// Fewer bytes than the fixed header.
    HeaderTooShort,
    /// The header declares a payload longer than `MAX_PAYLOAD_LEN`.
    PayloadTooLarge,
    /// Fewer payload bytes than the header declares.
    Truncated,
    /// Bytes left over after the declared payload.
    TrailingBytes,
}

/// The fixed fields of a packet.
#[derive(Clone, Copy, Debug, PartialEq, Eq)]
pub struct PacketHeader {
    pub msg_type: MessageType,
    pub session_id: [u8; 16],
    pub flags: u8,
}

/// One protocol message.
#[derive(Clone, Debug, PartialEq, Eq)]
pub struct Packet {
    pub header: PacketHeader,
    pub payload: Vec<u8>,
}

/// The mathematical value of a packet.
pub struct PacketView {
    pub msg_type: MessageType,
    pub session_id: Seq<u8>,
    pub flags: u8,
    pub payload: Seq<u8>,
}

impl PacketView {
    /// A packet that encodes and decodes back to itself.
    pub open spec fn wf(self) -> bool {
        &&& self.msg_type.wf()
        &&& self.session_id.len() == SESSION_ID_LEN
        &&& self.payload.len() <= MAX_PAYLOAD_LEN
    }
}

impl View for Packet {
    type V = PacketView;

    open spec fn view(&self) -> PacketView {
        PacketView {
            msg_type: self.header.msg_type,
            session_id: self.header.session_id@,
            flags: self.header.flags,
            payload: self.payload@,
        }
    }
}

/// The four big-endian bytes of `n`.
pub open spec fn be32_bytes(n: u32) -> Seq<u8> {
    seq![(n >> 24u32) as u8, (n >> 16u32) as u8, (n >> 8u32) as u8, n as u8]
}

/// The number that four big-endian bytes stand for.
pub open spec fn be32_value(b0: u8, b1: u8, b2: u8, b3: u8) -> u32 {
    ((b0 as u32) << 24u32) | ((b1 as u32) << 16u32) | ((b2 as u32) << 8u32) | (b3 as u32)
}

/// The payload length that a header declares.
pub open spec fn declared_len(b: Seq<u8>) -> nat
    recommends
        b.len() >= HEADER_LEN,
{
    be32_value(b[18], b[19], b[20], b[21]) as nat
}

/// The encoded form of a packet.
pub open spec fn encode_spec(p: PacketView) -> Seq<u8> {
    seq![tag_of(p.msg_type)] + p.session_id + seq![p.flags] + be32_bytes(p.payload.len() as u32)
        + p.payload
}

/// What a whole byte sequence decodes to.
pub open spec fn decode_spec(b: Seq<u8>) -> Result<PacketView, ParseError> {
    if b.len() < HEADER_LEN {
        Err(ParseError::HeaderTooShort)
    } else if declared_len(b) > MAX_PAYLOAD_LEN {
        Err(ParseError::PayloadTooLarge)
    } else if b.len() < HEADER_LEN + declared_len(b) {
        Err(ParseError::Truncated)
    } else if b.len() > HEADER_LEN + declared_len(b) {
        Err(ParseError::TrailingBytes)
    } else {
        Ok(
            PacketView {
                msg_type: type_of_tag(b[0]),
                session_id: b.subrange(1, 17),
                flags: b[17],
                payload: b.subrange(HEADER_LEN as int, b.len() as int),
            },
        )
    }
}

proof fn lemma_be32_of_bytes(n: u32)
    ensures
        be32_value((n >> 24u32) as u8, (n >> 16u32) as u8, (n >> 8u32) as u8, n as u8) == n,
{
    assert(((((n >> 24u32) as u8) as u32) << 24u32) | ((((n >> 16u32) as u8) as u32) << 16u32)
        | ((((n >> 8u32) as u8) as u32) << 8u32) | ((n as u8) as u32) == n) by (bit_vector);
}

proof fn lemma_bytes_of_be32(b0: u8, b1: u8, b2: u8, b3: u8)
    ensures
        be32_bytes(be32_value(b0, b1, b2, b3)) == seq![b0, b1, b2, b3],
{
    let n: u32 = ((b0 as u32) << 24u32) | ((b1 as u32) << 16u32) | ((b2 as u32) << 8u32) | (
    b3 as u32);
    assert((n >> 24u32) as u8 == b0 && (n >> 16u32) as u8 == b1 && (n >> 8u32) as u8 == b2
        && n as u8 == b3) by (bit_vector)
        requires
            n == ((b0 as u32) << 24u32) | ((b1 as u32) << 16u32) | ((b2 as u32) << 8u32) | (
            b3 as u32),
    ;
}

/// Decoding an encoded valid packet gives the packet back, for every type and
/// every payload, the empty one included.
pub proof fn lemma_round_trip(p: PacketView)
    requires
        p.wf(),
    ensures
        decode_spec(encode_spec(p)) == Ok::<PacketView, ParseError>(p),
{
    let b = encode_spec(p);
    let n = p.payload.len() as u32;
    lemma_be32_of_bytes(n);
    assert(b[18] == (n >> 24u32) as u8);
    assert(b[19] == (n >> 16u32) as u8);
    assert(b[20] == (n >> 8u32) as u8);
    assert(b[21] == n as u8);
    assert(declared_len(b) == p.payload.len());
    assert(b.subrange(1, 17) =~= p.session_id);
    assert(b.subrange(HEADER_LEN as int, b.len() as int) =~= p.payload);
    lemma_tag_round_trip(p.msg_type);
}

/// A byte sequence that decodes is the encoding of what it decodes to.
pub proof fn lemma_decode_then_encode(b: Seq<u8>)
    requires
        decode_spec(b) is Ok,
    ensures
        decode_spec(b).unwrap().wf(),
        encode_spec(decode_spec(b).unwrap()) == b,
{
    let p = decode_spec(b).unwrap();
    lemma_bytes_of_be32(b[18], b[19], b[20], b[21]);
    assert(p.payload.len() == declared_len(b));
    let t = b[0];
    assert(tag_of(type_of_tag(t)) == t);
    assert(encode_spec(p) =~= b);
}

/// Bytes whose header is whole but whose payload is shorter than the header
/// declares do not decode: the error is `Truncated` when the declared length
/// is in range, `PayloadTooLarge` otherwise.
pub proof fn lemma_truncated_fails(b: Seq<u8>)
    requires
        b.len() >= HEADER_LEN,
        b.len() < HEADER_LEN + declared_len(b),
    ensures
        decode_spec(b) is Err,
        declared_len(b) <= MAX_PAYLOAD_LEN ==> decode_spec(b) == Err::<PacketView, ParseError>(
            ParseError::Truncated,
        ),
{
}

impl Packet {
    /// A packet with no flags set.
    pub fn new(msg_type: MessageType, payload: Vec<u8>, session_id: [u8; 16]) -> (r: Packet)
        ensures
            r@ == (PacketView { msg_type, session_id: session_id@, flags: 0, payload: payload@ }),
    {
        Packet { header: PacketHeader { msg_type, session_id, flags: 0 }, payload }
    }

    /// The encoded form of this packet.
    pub fn to_bytes(&self) -> (r: Vec<u8>)
        requires
            self.payload@.len() <= MAX_PAYLOAD_LEN,
        ensures
            r@ == encode_spec(self@),
    {
        let n = self.payload.len();
        let mut out: Vec<u8> = Vec::with_capacity(HEADER_LEN + n);
        out.push(self.header.msg_type.to_tag());
        let mut i: usize = 0;
        while i < SESSION_ID_LEN
            invariant
                i <= SESSION_ID_LEN,
                out@ == seq![tag_of(self.header.msg_type)] + self.header.session_id@.subrange(
                    0,
                    i as int,
                ),
            decreases SESSION_ID_LEN - i,
        {
            out.push(self.header.session_id[i]);
            i = i + 1;
        }
        out.push(self.header.flags);
        let len = n as u32;
        out.push((len >> 24u32) as u8);
        out.push((len >> 16u32) as u8);
        out.push((len >> 8u32) as u8);
        out.push(len as u8);
        let ghost head = out@;
        let mut j: usize = 0;
        while j < n
            invariant
                j <= n,
                n == self.payload@.len(),
                out@ == head + self.payload@.subrange(0, j as int),
            decreases n - j,
        {
            out.push(self.payload[j]);
            j = j + 1;
        }
        assert(self.header.session_id@.subrange(0, 16) =~= self.header.session_id@);
        assert(self.payload@.subrange(0, n as int) =~= self.payload@);
        assert(out@ =~= encode_spec(self@));
        out
    }

    /// Decodes a byte sequence that holds exactly one packet.
    pub fn from_bytes(b: &[u8]) -> (r: Result<Packet, ParseError>)
        ensures
            match (r, decode_spec(b@)) {
                (Ok(p), Ok(v)) => p@ == v,
                (Err(e), Err(f)) => e == f,
                _ => false,
            },
    {
        if b.len() < HEADER_LEN {
            return Err(ParseError::HeaderTooShort);
        }
        let len = ((b[18] as u32) << 24u32) | ((b[19] as u32) << 16u32) | ((b[20] as u32) << 8u32)
            | (b[21] as u32);
        let len = len as usize;
        if len > MAX_PAYLOAD_LEN {
            return Err(ParseError::PayloadTooLarge);
        }
        if b.len() < HEADER_LEN + len {
            return Err(ParseError::Truncated);
        }
        if b.len() > HEADER_LEN + len {
            return Err(ParseError::TrailingBytes);
        }
        let mut session_id: [u8; 16] = [0u8; 16];
        let mut i: usize = 0;
        while i < SESSION_ID_LEN
            invariant
                i <= SESSION_ID_LEN,
                b@.len() >= HEADER_LEN,
                forall|k: int| 0 <= k < i ==> session_id@[k] == b@[k + 1],
                session_id@.len() == SESSION_ID_LEN,
            decreases SESSION_ID_LEN - i,
        {
            session_id[i] = b[i + 1];
            i = i + 1;
        }
        let mut payload: Vec<u8> = Vec::with_capacity(len);
        let mut j: usize = 0;
        while j < len
            invariant
                j <= len,
                b@.len() == HEADER_LEN + len,
                HEADER_LEN + len == b.len(),
                payload@ == b@.subrange(HEADER_LEN as int, HEADER_LEN + j),
            decreases len - j,
        {
            payload.push(b[HEADER_LEN + j]);
            j = j + 1;
        }
        assert(session_id@ =~= b@.subrange(1, 17));
        Ok(
            Packet {
                header: PacketHeader {
                    msg_type: MessageType::from_tag(b[0]),
                    session_id,
                    flags: b[17],
                },
                payload,
            },
        )
    }
}

} // verus!
