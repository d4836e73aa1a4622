//! AdaTP protocol engine: the binary packet codec, stream framing, the
//! connection handshake and the room-based relay decisions of one session.

pub mod packet;
pub mod framing;
pub mod session;
