//! Streaming encoder and decoder over a byte buffer.
use vstd::prelude::*;
use crate::bytes_le::{append_bytes, le_value_u16, le_value_u32, push_u16_le, push_u32_le};
use crate::frame::{
    awaits_bytes, declared_len, frame_extent, holds_frame, lemma_decode_encoded, max_declared_len,
    wire_bytes, Frame, FrameError, HEADER_SIZE, LENGTH_SIZE, MAX_BODY_SIZE,
};

verus! {

/// Turns frames into wire bytes appended to an output buffer.
#[derive(Debug, Clone, Default)]
pub struct MessageEncoder {}

/// Takes frames off the front of a receive buffer.
#[derive(Debug, Clone, Default)]
pub struct MessageDecoder {}

/// An encoder and a decoder together.
#[derive(Debug, Clone, Default)]
pub struct MessageCodec {
    pub encoder: MessageEncoder,
    pub decoder: MessageDecoder,
}

impl MessageEncoder {
    /// Creates an encoder.
    pub fn new() -> (r: MessageEncoder) {
        MessageEncoder {  }
    }

    /// Appends the wire bytes of `item` to `dst`, or fails with
    /// `BodyTooLarge` (leaving `dst` as it was) when the body is over the limit.
    pub fn encode(&mut self, item: Frame, dst: &mut Vec<u8>) -> (r: Result<(), FrameError>)
        ensures
            r is Ok <==> item.body@.len() <= MAX_BODY_SIZE,
            r is Ok ==> final(dst)@ == old(dst)@ + item.spec_encoded(),
            r is Err ==> r == Err::<(), FrameError>(FrameError::BodyTooLarge(item.body@.len() as usize))
                && final(dst)@ == old(dst)@,
    {
        match item.validate() {
            Ok(()) => {},
            Err(e) => return Err(e),
        }
        let encoded = item.encode();
        append_bytes(dst, encoded.as_slice());
        Ok(())
    }
}

impl MessageDecoder {
    /// Creates a decoder.
    pub fn new() -> (r: MessageDecoder) {
        MessageDecoder {  }
    }

    /// Takes the first frame off `src`; see [`Frame::decode`].
    pub fn decode(&mut self, src: &mut Vec<u8>) -> (r: Result<Option<Frame>, FrameError>)
        ensures
            awaits_bytes(old(src)@) <==> r == Ok::<Option<Frame>, FrameError>(None),
            holds_frame(old(src)@) <==> (r is Ok && r->Ok_0 is Some),
            old(src)@.len() >= LENGTH_SIZE && declared_len(old(src)@) > max_declared_len() ==> r
                == Err::<Option<Frame>, FrameError>(
                FrameError::FrameTooLarge(declared_len(old(src)@) as usize),
            ),
            !holds_frame(old(src)@) ==> final(src)@ == old(src)@,
            holds_frame(old(src)@) ==> {
                let f = r->Ok_0->Some_0;
                &&& f.parsed_from(old(src)@)
                &&& final(src)@ == old(src)@.subrange(frame_extent(old(src)@), old(src)@.len() as int)
            },
    {
        Frame::decode(src)
    }
}

/// The header fields and body of the first frame of `s`.
pub open spec fn first_fields(s: Seq<u8>) -> (u16, u32, Seq<u8>) {
    (
        le_value_u16(s, 4) as u16,
        le_value_u32(s, 6) as u32,
        s.subrange(10, frame_extent(s)),
    )
}

/// The complete frames at the front of `s`, in order, and what follows them.
pub open spec fn split_frames(s: Seq<u8>) -> (Seq<(u16, u32, Seq<u8>)>, Seq<u8>)
    decreases s.len(),
{
    if holds_frame(s) && frame_extent(s) > 0 {
        let rest = split_frames(s.subrange(frame_extent(s), s.len() as int));
        (seq![first_fields(s)] + rest.0, rest.1)
    } else {
        (Seq::empty(), s)
    }
}

/// The fields of each frame of `fs`.
pub open spec fn fields_of(fs: Seq<Frame>) -> Seq<(u16, u32, Seq<u8>)> {
    Seq::new(fs.len(), |i: int| (fs[i].message_id, fs[i].sequence_id, fs[i].body@))
}

impl MessageDecoder {
    /// Takes every complete frame off the front of `src`, in order, and
    /// stops where more bytes are needed or where the bytes cannot form a
    /// frame; in that case the error comes back too, and the connection
    /// must close. What remains in `src` is what follows the frames taken.
    pub fn decode_available(&mut self, src: &mut Vec<u8>) -> (r: (Vec<Frame>, Option<FrameError>))
        ensures
            fields_of(r.0@) == split_frames(old(src)@).0,
            final(src)@ == split_frames(old(src)@).1,
            r.1 is None <==> awaits_bytes(final(src)@),
            r.1 matches Some(e) ==> (e is FrameTooLarge || e is InvalidFormat),
    {
        let mut frames: Vec<Frame> = Vec::new();
        let ghost whole = src@;
        loop
            invariant
                whole == old(src)@,
                fields_of(frames@) + split_frames(src@).0 == split_frames(whole).0,
                split_frames(src@).1 == split_frames(whole).1,
            decreases src@.len(),
        {
            let ghost cur = src@;
            match Frame::decode(src) {
                Ok(Some(f)) => {
                    proof {
                        assert(frame_extent(cur) > 0);
                        assert(split_frames(cur).0 == seq![first_fields(cur)] + split_frames(src@).0);
                        assert(first_fields(cur) == (f.message_id, f.sequence_id, f.body@));
                        assert(fields_of(frames@.push(f)) =~= fields_of(frames@).push((f.message_id, f.sequence_id, f.body@)));
                        assert(fields_of(frames@.push(f)) + split_frames(src@).0 =~= fields_of(frames@) + split_frames(cur).0);
                    }
                    frames.push(f);
                },
                Ok(None) => {
                    proof {
                        assert(split_frames(cur).0 =~= Seq::<(u16, u32, Seq<u8>)>::empty());
                        assert(fields_of(frames@) =~= fields_of(frames@) + split_frames(cur).0);
                    }
                    return (frames, None);
                },
                Err(e) => {
                    proof {
                        assert(split_frames(cur).0 =~= Seq::<(u16, u32, Seq<u8>)>::empty());
                        assert(fields_of(frames@) =~= fields_of(frames@) + split_frames(cur).0);
                    }
                    return (frames, Some(e));
                },
            }
        }
    }
}

impl MessageCodec {
    /// Creates a codec.
    pub fn new() -> (r: MessageCodec) {
        MessageCodec { encoder: MessageEncoder::new(), decoder: MessageDecoder::new() }
    }

    /// The encoder half.
    pub fn encoder(&mut self) -> (r: &mut MessageEncoder) {
        &mut self.encoder
    }

    /// The decoder half.
    pub fn decoder(&mut self) -> (r: &mut MessageDecoder) {
        &mut self.decoder
    }

    /// Appends the wire bytes of `item` to `dst`; see [`MessageEncoder::encode`].
    pub fn encode(&mut self, item: Frame, dst: &mut Vec<u8>) -> (r: Result<(), FrameError>)
        ensures
            r is Ok <==> item.body@.len() <= MAX_BODY_SIZE,
            r is Ok ==> final(dst)@ == old(dst)@ + item.spec_encoded(),
            r is Err ==> r == Err::<(), FrameError>(FrameError::BodyTooLarge(item.body@.len() as usize))
                && final(dst)@ == old(dst)@,
    {
        self.encoder.encode(item, dst)
    }

    /// Takes the first frame off `src`; see [`Frame::decode`].
    pub fn decode(&mut self, src: &mut Vec<u8>) -> (r: Result<Option<Frame>, FrameError>)
        ensures
            awaits_bytes(old(src)@) <==> r == Ok::<Option<Frame>, FrameError>(None),
            holds_frame(old(src)@) <==> (r is Ok && r->Ok_0 is Some),
            old(src)@.len() >= LENGTH_SIZE && declared_len(old(src)@) > max_declared_len() ==> r
                == Err::<Option<Frame>, FrameError>(
                FrameError::FrameTooLarge(declared_len(old(src)@) as usize),
            ),
            !holds_frame(old(src)@) ==> final(src)@ == old(src)@,
            holds_frame(old(src)@) ==> {
                let f = r->Ok_0->Some_0;
                &&& f.parsed_from(old(src)@)
                &&& final(src)@ == old(src)@.subrange(frame_extent(old(src)@), old(src)@.len() as int)
            },
    {
        self.decoder.decode(src)
    }
}

/// The bytes that the writer sends for responses `rs`, in order: each
/// `(message_id, body)` as a frame with sequence id 0; a response whose
/// body is over the limit is left out.
pub open spec fn response_stream(rs: Seq<(u16, Seq<u8>)>) -> Seq<u8>
    decreases rs.len(),
{
    if rs.len() == 0 {
        Seq::empty()
    } else {
        let last = rs.last();
        response_stream(rs.drop_last()) + if last.1.len() <= MAX_BODY_SIZE {
            wire_bytes(last.0, 0, last.1)
        } else {
            Seq::empty()
        }
    }
}

/// The views of a batch of responses.
pub open spec fn response_views(rs: Seq<(u16, Vec<u8>)>) -> Seq<(u16, Seq<u8>)> {
    Seq::new(rs.len(), |i: int| (rs[i].0, rs[i].1@))
}

/// Encodes a batch of responses, in the order given, as server frames
/// (sequence id 0). Responses over the size limit are left out; the
/// second result counts them.
pub fn encode_responses(responses: &Vec<(u16, Vec<u8>)>) -> (r: (Vec<u8>, usize))
    ensures
        r.0@ == response_stream(response_views(responses@)),
        r.1 <= responses@.len(),
{
    let mut out: Vec<u8> = Vec::new();
    let mut skipped: usize = 0;
    let mut i: usize = 0;
    while i < responses.len()
        invariant
            i <= responses@.len(),
            skipped <= i,
            out@ == response_stream(response_views(responses@).subrange(0, i as int)),
        decreases responses@.len() - i,
    {
        let (message_id, body) = &responses[i];
        let ghost views = response_views(responses@);
        assert(views.subrange(0, i + 1).drop_last() =~= views.subrange(0, i as int));
        if body.len() <= MAX_BODY_SIZE {
            push_u32_le(&mut out, (HEADER_SIZE + body.len()) as u32);
            push_u16_le(&mut out, *message_id);
            push_u32_le(&mut out, 0);
            append_bytes(&mut out, body.as_slice());
        } else {
            skipped = skipped + 1;
        }
        i = i + 1;
    }
    assert(response_views(responses@).subrange(0, i as int) =~= response_views(responses@));
    (out, skipped)
}

/// Whether every frame of `fs` has a body within the limit.
pub open spec fn all_encodable(fs: Seq<Frame>) -> bool {
    forall|i: int| 0 <= i < fs.len() ==> (#[trigger] fs[i]).body@.len() <= MAX_BODY_SIZE
}

/// The concatenated wire bytes of `fs`, in order.
pub open spec fn encode_all(fs: Seq<Frame>) -> Seq<u8>
    decreases fs.len(),
{
    if fs.len() == 0 {
        Seq::empty()
    } else {
        fs[0].spec_encoded() + encode_all(fs.drop_first())
    }
}

/// Round trip: the encoding of a frame within the size limit decodes to a
/// frame with the same fields, consumes the whole encoding, and is
/// `4 + 6 + body.len` bytes long.
pub proof fn lemma_round_trip(f: Frame)
    requires
        f.body@.len() <= MAX_BODY_SIZE,
    ensures
        f.spec_encoded().len() == 4 + 6 + f.body@.len(),
        holds_frame(f.spec_encoded()),
        frame_extent(f.spec_encoded()) == f.spec_encoded().len(),
        forall|g: Frame| #[trigger] g.parsed_from(f.spec_encoded()) ==> g.same_fields(&f),
{
    lemma_decode_encoded(f, Seq::empty());
    assert(f.spec_encoded() + Seq::<u8>::empty() =~= f.spec_encoded());
}

/// Partial decode: any proper prefix of an encoded frame asks for more bytes
/// (so the decoder leaves the buffer as it was), and once the rest arrives
/// the frame decodes.
pub proof fn lemma_partial_decode(f: Frame, cut: int)
    requires
        f.body@.len() <= MAX_BODY_SIZE,
        0 <= cut < f.spec_encoded().len(),
    ensures
        awaits_bytes(f.spec_encoded().subrange(0, cut)),
        f.spec_encoded().subrange(0, cut) + f.spec_encoded().subrange(cut, f.spec_encoded().len() as int)
            == f.spec_encoded(),
        holds_frame(f.spec_encoded()),
        forall|g: Frame| #[trigger] g.parsed_from(f.spec_encoded()) ==> g.same_fields(&f),
{
    let e = f.spec_encoded();
    let p = e.subrange(0, cut);
    lemma_round_trip(f);
    if cut >= LENGTH_SIZE {
        assert(p[0] == e[0] && p[1] == e[1] && p[2] == e[2] && p[3] == e[3]);
        assert(declared_len(p) == declared_len(e));
    }
    assert(p + e.subrange(cut, e.len() as int) =~= e);
}

/// Streaming: the concatenated encodings of `fs` start with the first frame
/// of `fs`, and after it comes the encoding of the others; the encoding of
/// no frames is empty.
pub proof fn lemma_stream(fs: Seq<Frame>)
    requires
        all_encodable(fs),
    ensures
        fs.len() == 0 ==> encode_all(fs) == Seq::<u8>::empty(),
        fs.len() > 0 ==> {
            let s = encode_all(fs);
            &&& holds_frame(s)
            &&& forall|g: Frame| #[trigger] g.parsed_from(s) ==> g.same_fields(&fs[0])
            &&& s.subrange(frame_extent(s), s.len() as int) == encode_all(fs.drop_first())
        },
{
    if fs.len() > 0 {
        let f = fs[0];
        assert(f.body@.len() <= MAX_BODY_SIZE);
        lemma_decode_encoded(f, encode_all(fs.drop_first()));
    }
}

} // verus!
