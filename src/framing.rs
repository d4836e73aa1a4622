//! Reassembly of whole packets from a byte stream that arrives in chunks of
//! any size.
use vstd::prelude::*;
use crate::packet::{
    declared_len, decode_spec, Packet, PacketView, ParseError, HEADER_LEN, MAX_PAYLOAD_LEN,
};

verus! {

/// Bytes of the frame that starts a buffer, header included.
pub open spec fn frame_len(b: Seq<u8>) -> nat
    recommends
        b.len() >= HEADER_LEN,
{
    (HEADER_LEN + declared_len(b)) as nat
}

/// What the front of a stream buffer holds: `Ok(None)` while a frame is still
/// incomplete, the packet once it is whole, or the framing error that makes
/// the stream unusable.
pub open spec fn frame_status(b: Seq<u8>) -> Result<Option<PacketView>, ParseError> {
    if b.len() < HEADER_LEN {
        Ok(None)
    } else if declared_len(b) > MAX_PAYLOAD_LEN {
        Err(ParseError::PayloadTooLarge)
    } else if b.len() < frame_len(b) {
        Ok(None)
    } else {
        Ok(Some(decode_spec(b.subrange(0, frame_len(b) as int)).unwrap()))
    }
}

/// What is left at the end of the stream: nothing is an orderly close,
/// anything else a cut-off frame.
pub open spec fn eof_status(b: Seq<u8>) -> Result<(), ParseError> {
    if b.len() == 0 {
        Ok(())
    } else if b.len() < HEADER_LEN {
        Err(ParseError::HeaderTooShort)
    } else {
        Err(ParseError::Truncated)
    }
}

/// Bytes read from a stream and not yet taken out as packets.
pub struct FrameBuffer {
    buf: Vec<u8>,
}

impl View for FrameBuffer {
    type V = Seq<u8>;

    closed spec fn view(&self) -> Seq<u8> {
        self.buf@
    }
}

impl FrameBuffer {
    /// An empty buffer.
    pub fn new() -> (r: FrameBuffer)
        ensures
            r@ == Seq::<u8>::empty(),
    {
        FrameBuffer { buf: Vec::new() }
    }

    /// Appends bytes just read from the stream.
    pub fn push(&mut self, data: &[u8])
        ensures
            final(self)@ == old(self)@ + data@,
    {
        let ghost start = self.buf@;
        let mut i: usize = 0;
        while i < data.len()
            invariant
                i <= data@.len(),
                self.buf@ == start + data@.subrange(0, i as int),
            decreases data@.len() - i,
        {
            self.buf.push(data[i]);
            i = i + 1;
        }
        assert(data@.subrange(0, data@.len() as int) =~= data@);
    }

    /// Takes the next whole packet off the front of the buffer, if one is
    /// there. Incomplete frames stay buffered; an oversized declared length is
    /// an error and leaves the buffer as it was.
    pub fn next_packet(&mut self) -> (r: Result<Option<Packet>, ParseError>)
        ensures
            match (r, frame_status(old(self)@)) {
                (Ok(Some(p)), Ok(Some(v))) => p@ == v && final(self)@ == old(self)@.subrange(
                    frame_len(old(self)@) as int,
                    old(self)@.len() as int,
                ),
                (Ok(None), Ok(None)) => final(self)@ == old(self)@,
                (Err(e), Err(f)) => e == f && final(self)@ == old(self)@,
                _ => false,
            },
    {
        let n = self.buf.len();
        if n < HEADER_LEN {
            return Ok(None);
        }
        let len = ((self.buf[18] as u32) << 24u32) | ((self.buf[19] as u32) << 16u32) | ((
        self.buf[20] as u32) << 8u32) | (self.buf[21] as u32);
        let len = len as usize;
        if len > MAX_PAYLOAD_LEN {
            return Err(ParseError::PayloadTooLarge);
        }
        let total = HEADER_LEN + len;
        if n < total {
            return Ok(None);
        }
        let ghost b = self.buf@;
        let mut frame: Vec<u8> = Vec::with_capacity(total);
        let mut rest: Vec<u8> = Vec::with_capacity(n - total);
        let mut i: usize = 0;
        while i < n
            invariant
                i <= n,
                n == self.buf@.len(),
                self.buf@ == b,
                total <= n,
                frame@ == b.subrange(0, if i < total { i as int } else { total as int }),
                rest@ == b.subrange(total as int, if i < total { total as int } else { i as int }),
            decreases n - i,
        {
            if i < total {
                frame.push(self.buf[i]);
            } else {
                rest.push(self.buf[i]);
            }
            i = i + 1;
        }
        assert(frame@.subrange(18, 22) == b.subrange(18, 22));
        assert(frame@[18] == b[18] && frame@[19] == b[19] && frame@[20] == b[20] && frame@[21]
            == b[21]);
        self.buf = rest;
        match Packet::from_bytes(frame.as_slice()) {
            Ok(p) => Ok(Some(p)),
            Err(e) => Err(e),
        }
    }

    /// How the stream stands once it has ended and every whole packet has been
    /// taken out.
    pub fn at_end_of_stream(&self) -> (r: Result<(), ParseError>)
        ensures
            r == eof_status(self@),
    {
        if self.buf.len() == 0 {
            Ok(())
        } else if self.buf.len() < HEADER_LEN {
            Err(ParseError::HeaderTooShort)
        } else {
            Err(ParseError::Truncated)
        }
    }
}

} // verus!
