//! The frame: a message id, a sequence id and an opaque body, and its
//! length-prefixed wire layout.
use vstd::prelude::*;
use crate::text::{decimal, push_decimal};
use crate::bytes_le::{
    append_bytes, le_bytes_u16, le_bytes_u32, le_value_u16, le_value_u32, lemma_le_u16_round_trip,
    lemma_le_u32_round_trip, push_u16_le, push_u32_le, read_u16_le, read_u32_le,
};

verus! {

broadcast use vstd::string::group_string_axioms;

/// Bytes of the header after the length prefix: message id and sequence id.
pub const HEADER_SIZE: usize = 6;

/// Bytes of the length prefix.
pub const LENGTH_SIZE: usize = 4;

/// Largest body a frame may carry (16 MiB).
pub const MAX_BODY_SIZE: usize = 16777216;

/// Errors of the frame layer.
#[derive(Debug, Clone, PartialEq, Eq)]
pub enum FrameError {
    /// The declared length exceeds the largest frame.
    FrameTooLarge(usize),
    /// The body exceeds the largest body.
    BodyTooLarge(usize),
    /// The bytes cannot form a frame.
    InvalidFormat(String),
    /// More bytes are needed.
    Incomplete,
    /// The transport failed.
    Io(String),
}

/// A message unit: header fields and an opaque body.
#[derive(Debug, Clone, PartialEq, Eq)]
pub struct Frame {
    pub message_id: u16,
    pub sequence_id: u32,
    pub body: Vec<u8>,
}

/// The bytes that encode a frame with these fields.
pub open spec fn wire_bytes(message_id: u16, sequence_id: u32, body: Seq<u8>) -> Seq<u8> {
    le_bytes_u32((HEADER_SIZE + body.len()) as u32) + le_bytes_u16(message_id) + le_bytes_u32(
        sequence_id,
    ) + body
}

/// The length that a buffer of at least four bytes declares for its first frame.
pub open spec fn declared_len(s: Seq<u8>) -> nat {
    le_value_u32(s, 0)
}

/// The largest length a frame may declare.
pub open spec fn max_declared_len() -> nat {
    (HEADER_SIZE + MAX_BODY_SIZE) as nat
}

/// Whether `s` starts with a complete, well-formed frame.
pub open spec fn holds_frame(s: Seq<u8>) -> bool {
    &&& s.len() >= LENGTH_SIZE
    &&& HEADER_SIZE <= declared_len(s) <= max_declared_len()
    &&& s.len() >= LENGTH_SIZE + declared_len(s)
}

/// Whether `s` is the start of a well-formed frame whose bytes have not all arrived.
pub open spec fn awaits_bytes(s: Seq<u8>) -> bool {
    ||| s.len() < LENGTH_SIZE
    ||| (HEADER_SIZE <= declared_len(s) <= max_declared_len() && s.len() < LENGTH_SIZE
        + declared_len(s))
}

/// Bytes that the first frame of `s` occupies.
pub open spec fn frame_extent(s: Seq<u8>) -> int {
    LENGTH_SIZE + declared_len(s)
}

impl Frame {
    /// The wire bytes of this frame.
    pub open spec fn spec_encoded(&self) -> Seq<u8> {
        wire_bytes(self.message_id, self.sequence_id, self.body@)
    }

    /// Whether `self` is the first frame of `s`.
    pub open spec fn parsed_from(&self, s: Seq<u8>) -> bool {
        &&& self.message_id == le_value_u16(s, 4)
        &&& self.sequence_id == le_value_u32(s, 6)
        &&& self.body@ == s.subrange(10, frame_extent(s))
    }

    /// Whether two frames carry the same fields.
    pub open spec fn same_fields(&self, other: &Frame) -> bool {
        &&& self.message_id == other.message_id
        &&& self.sequence_id == other.sequence_id
        &&& self.body@ == other.body@
    }

    /// Creates a frame.
    pub fn new(message_id: u16, sequence_id: u32, body: Vec<u8>) -> (r: Frame)
        ensures
            r.message_id == message_id,
            r.sequence_id == sequence_id,
            r.body@ == body@,
    {
        Frame { message_id, sequence_id, body }
    }

    /// Creates a frame without body.
    pub fn empty(message_id: u16, sequence_id: u32) -> (r: Frame)
        ensures
            r.message_id == message_id,
            r.sequence_id == sequence_id,
            r.body@ == Seq::<u8>::empty(),
    {
        Frame { message_id, sequence_id, body: Vec::new() }
    }

    /// Size of the whole frame on the wire, length prefix included.
    pub fn frame_size(&self) -> (r: usize)
        requires
            self.body@.len() <= MAX_BODY_SIZE,
        ensures
            r == LENGTH_SIZE + HEADER_SIZE + self.body@.len(),
    {
        LENGTH_SIZE + HEADER_SIZE + self.body.len()
    }

    /// Size of the frame after the length prefix.
    pub fn payload_size(&self) -> (r: usize)
        requires
            self.body@.len() <= MAX_BODY_SIZE,
        ensures
            r == HEADER_SIZE + self.body@.len(),
    {
        HEADER_SIZE + self.body.len()
    }

    /// A one-line description: `Frame[msg_id=.., seq=.., body_len=..]`.
    pub fn to_string(&self) -> (r: String)
        ensures
            r@ == "Frame[msg_id="@ + decimal(self.message_id as nat) + ", seq="@ + decimal(
                self.sequence_id as nat,
            ) + ", body_len="@ + decimal(self.body@.len()) + "]"@,
    {
        let mut s = "Frame[msg_id=".to_string();
        push_decimal(&mut s, self.message_id as u64);
        s.append(", seq=");
        push_decimal(&mut s, self.sequence_id as u64);
        s.append(", body_len=");
        push_decimal(&mut s, self.body.len() as u64);
        s.append("]");
        s
    }

    /// Checks that the body is within the size limit.
    pub fn validate(&self) -> (r: Result<(), FrameError>)
        ensures
            self.body@.len() <= MAX_BODY_SIZE <==> r is Ok,
            r is Err ==> r == Err::<(), FrameError>(FrameError::BodyTooLarge(self.body@.len() as usize)),
    {
        if self.body.len() > MAX_BODY_SIZE {
            return Err(FrameError::BodyTooLarge(self.body.len()));
        }
        Ok(())
    }

    /// Encodes the frame into its wire bytes.
    pub fn encode(&self) -> (r: Vec<u8>)
        requires
            self.body@.len() <= MAX_BODY_SIZE,
        ensures
            r@ == self.spec_encoded(),
            r@.len() == LENGTH_SIZE + HEADER_SIZE + self.body@.len(),
    {
        let payload = self.payload_size();
        let mut buf: Vec<u8> = Vec::with_capacity(LENGTH_SIZE + payload);
        push_u32_le(&mut buf, payload as u32);
        push_u16_le(&mut buf, self.message_id);
        push_u32_le(&mut buf, self.sequence_id);
        append_bytes(&mut buf, self.body.as_slice());
        buf
    }

    /// Takes the first frame off the front of `buf`.
    ///
    /// `Ok(None)` means that more bytes are needed; `buf` is then left as it
    /// was. A declared length beyond the limit, or too short to hold the
    /// header, is an error and leaves `buf` as it was.
    pub fn decode(buf: &mut Vec<u8>) -> (r: Result<Option<Frame>, FrameError>)
        ensures
            awaits_bytes(old(buf)@) <==> r == Ok::<Option<Frame>, FrameError>(None),
            holds_frame(old(buf)@) <==> (r is Ok && r->Ok_0 is Some),
            old(buf)@.len() >= LENGTH_SIZE && declared_len(old(buf)@) > max_declared_len() ==> r
                == Err::<Option<Frame>, FrameError>(
                FrameError::FrameTooLarge(declared_len(old(buf)@) as usize),
            ),
            old(buf)@.len() >= LENGTH_SIZE && declared_len(old(buf)@) < HEADER_SIZE ==> r is Err
                && r->Err_0 is InvalidFormat,
            !holds_frame(old(buf)@) ==> final(buf)@ == old(buf)@,
            holds_frame(old(buf)@) ==> {
                let f = r->Ok_0->Some_0;
                &&& f.parsed_from(old(buf)@)
                &&& final(buf)@ == old(buf)@.subrange(frame_extent(old(buf)@), old(buf)@.len() as int)
            },
    {
        if buf.len() < LENGTH_SIZE {
            return Ok(None);
        }
        let frame_len = read_u32_le(buf.as_slice(), 0);
        if frame_len as usize > HEADER_SIZE + MAX_BODY_SIZE {
            return Err(FrameError::FrameTooLarge(frame_len as usize));
        }
        if (frame_len as usize) < HEADER_SIZE {
            return Err(FrameError::InvalidFormat("declared length shorter than the header".to_string()));
        }
        let extent = LENGTH_SIZE + frame_len as usize;
        if buf.len() < extent {
            return Ok(None);
        }
        let message_id = read_u16_le(buf.as_slice(), 4);
        let sequence_id = read_u32_le(buf.as_slice(), 6);
        let ghost whole = buf@;
        let rest = buf.split_off(extent);
        let body = buf.split_off(10);
        *buf = rest;
        assert(body@ == whole.subrange(10, extent as int));
        Ok(Some(Frame { message_id, sequence_id, body }))
    }
}

/// Decoding the encoding of a frame gives back its fields and consumes
/// exactly its bytes; `rest` stands for whatever follows it in the buffer.
pub proof fn lemma_decode_encoded(f: Frame, rest: Seq<u8>)
    requires
        f.body@.len() <= MAX_BODY_SIZE,
    ensures
        holds_frame(f.spec_encoded() + rest),
        frame_extent(f.spec_encoded() + rest) == f.spec_encoded().len(),
        ({
            let s = f.spec_encoded() + rest;
            &&& le_value_u16(s, 4) == f.message_id
            &&& le_value_u32(s, 6) == f.sequence_id
            &&& s.subrange(10, frame_extent(s)) == f.body@
            &&& s.subrange(frame_extent(s), s.len() as int) == rest
        }),
{
    let e = f.spec_encoded();
    let s = e + rest;
    let n = (HEADER_SIZE + f.body@.len()) as u32;
    let l = le_bytes_u32(n);
    let m = le_bytes_u16(f.message_id);
    let q = le_bytes_u32(f.sequence_id);
    lemma_le_u32_round_trip(n);
    lemma_le_u16_round_trip(f.message_id);
    lemma_le_u32_round_trip(f.sequence_id);
    assert(s.subrange(0, 4) =~= l);
    assert(s.subrange(4, 6) =~= m);
    assert(s.subrange(6, 10) =~= q);
    assert(le_value_u32(s, 0) == le_value_u32(l, 0));
    assert(le_value_u16(s, 4) == le_value_u16(m, 0));
    assert(le_value_u32(s, 6) == le_value_u32(q, 0));
    assert(s.subrange(10, e.len() as int) =~= f.body@);
    assert(s.subrange(e.len() as int, s.len() as int) =~= rest);
}

} // verus!
