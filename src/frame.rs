//! A length-prefixed frame: a big-endian `u32` byte count, then that many payload bytes.
use vstd::prelude::*;

use crate::bytes::{
    be_bytes_u32, be_u32, lemma_be_u32_bytes_round_trip, lemma_be_u32_round_trip,
    u32_from_be_bytes, u32_to_be_bytes,
};
use crate::decode::{
    BinaryDecode, DecodeFixedLengthField, DecodeLength, DecodeVariableLengthField, TryDecode,
    lemma_prefixed_parts, split_prefixed,
};
use crate::encode::{BinaryEncode, EncodeFixedLengthField, EncodeVariableLengthField, TryEncode, wrote};
use crate::stream::{BinaryRead, BinaryWrite};

verus! {

/// The byte count at the front of a frame.
#[derive(Debug, Clone, Copy, PartialEq, Eq)]
pub struct LengthHeader(pub u32);

impl View for LengthHeader {
    type V = u32;

    open spec fn view(&self) -> u32 {
        self.0
    }
}

impl DecodeFixedLengthField<4> for LengthHeader {
    open spec fn from_fixed(bytes: Seq<u8>) -> u32 {
        be_u32(bytes)
    }

    fn handle(bytes: [u8; 4]) -> (r: Self) {
        LengthHeader(u32_from_be_bytes(bytes))
    }
}

impl EncodeFixedLengthField<4> for LengthHeader {
    open spec fn to_fixed(v: u32) -> [u8; 4] {
        be_bytes_u32(v)
    }

    fn handle(&self) -> (r: [u8; 4]) {
        u32_to_be_bytes(self.0)
    }
}

/// As a length prefix, the header announces its own value as the byte count.
impl DecodeLength<4> for LengthHeader {
    open spec fn length_of(bytes: Seq<u8>) -> nat {
        be_u32(bytes) as nat
    }

    fn handle(bytes: [u8; 4]) -> (r: usize) {
        u32_from_be_bytes(bytes) as usize
    }
}

/// The bytes that a frame carries.
#[derive(Debug, PartialEq, Eq)]
pub struct Payload(pub Vec<u8>);

impl View for Payload {
    type V = Seq<u8>;

    open spec fn view(&self) -> Seq<u8> {
        self.0@
    }
}

impl DecodeVariableLengthField for Payload {
    open spec fn from_variable(bytes: Seq<u8>) -> Seq<u8> {
        bytes
    }

    fn handle(bytes: Vec<u8>) -> (r: Self) {
        Payload(bytes)
    }
}

impl EncodeVariableLengthField for Payload {
    open spec fn to_variable(v: Seq<u8>) -> Seq<u8> {
        v
    }

    fn handle(&self) -> (r: Vec<u8>) {
        let r = self.0.clone();
        assert(r@ =~= self.0@);
        r
    }
}

/// A header and the payload it counts.
#[derive(Debug, PartialEq, Eq)]
pub struct Frame {
    pub length_header: LengthHeader,
    pub payload: Payload,
}

impl View for Frame {
    type V = (u32, Seq<u8>);

    open spec fn view(&self) -> (u32, Seq<u8>) {
        (self.length_header@, self.payload@)
    }
}

/// The frame at the front of `input` and what follows it; `None` when `input` ends
/// before the frame does.
pub open spec fn frame_split(input: Seq<u8>) -> Option<((u32, Seq<u8>), Seq<u8>)> {
    match split_prefixed::<LengthHeader, 4>(input) {
        Some((payload, rest)) => Some(((be_u32(input.take(4)), payload), rest)),
        None => None,
    }
}

/// The bytes of the frame `f`: its header, then its payload.
pub open spec fn frame_bytes(f: (u32, Seq<u8>)) -> Seq<u8> {
    be_bytes_u32(f.0)@ + f.1
}

impl<R: BinaryRead> TryDecode<R> for Frame {
    type Error = std::io::Error;

    open spec fn decodes(before: R, after: R, r: Result<Self, std::io::Error>) -> bool {
        match frame_split(before.unread()) {
            None => r is Err,
            Some((f, rest)) => r matches Ok(v) && v@ == f && after.unread() == rest,
        }
    }

    fn handle(reader: &mut R) -> (r: Result<Self, std::io::Error>) {
        let ghost input = reader.unread();
        let length_header: LengthHeader = reader.decode_fixed_length_field()?;
        let payload: Payload = reader.decode_variable_length_field_with_length(
            length_header.0 as usize,
        )?;
        proof {
            lemma_prefixed_parts(input, 4, length_header.0 as int);
        }
        Ok(Frame { length_header, payload })
    }
}

impl<W: BinaryWrite> TryEncode<W> for Frame {
    type Error = std::io::Error;

    open spec fn encodes(&self, before: W, after: W, r: Result<(), std::io::Error>) -> bool {
        wrote(before, after, frame_bytes(self@), r)
    }

    fn handle(&self, writer: &mut W) -> (r: Result<(), std::io::Error>) {
        let ghost start = *writer;
        writer.encode_fixed_length_field(&self.length_header)?;
        let r = writer.encode_variable_length_field(&self.payload);
        proof {
            if r is Ok {
                assert(writer.written() =~= start.written() + frame_bytes(self@));
            }
        }
        r
    }
}

/// A length prefix of four big-endian bytes that announce `k`: where the input holds the
/// prefix and `k` bytes more, the read takes exactly `4 + k` bytes and the block is the
/// `k` bytes after the prefix; where it holds fewer, the read fails.
pub proof fn lemma_length_prefixed_by_u32_be(input: Seq<u8>)
    ensures
        4 <= input.len() && 4 + be_u32(input.take(4)) <= input.len() ==> {
            let k = be_u32(input.take(4)) as int;
            &&& split_prefixed::<LengthHeader, 4>(input) == Some(
                (input.subrange(4, 4 + k), input.skip(4 + k)),
            )
            &&& input.len() - input.skip(4 + k).len() == 4 + k
        },
        !(4 <= input.len() && 4 + be_u32(input.take(4)) <= input.len()) ==> split_prefixed::<
            LengthHeader,
            4,
        >(input) is None,
{
}

/// Round trip of a frame whose header counts its payload: its bytes followed by `rest`
/// decode to the same frame and leave exactly `rest`.
pub proof fn lemma_frame_round_trip(f: (u32, Seq<u8>), rest: Seq<u8>)
    requires
        f.1.len() == f.0,
    ensures
        frame_split(frame_bytes(f) + rest) == Some((f, rest)),
{
    let input = frame_bytes(f) + rest;
    lemma_be_u32_round_trip(f.0);
    assert(input.take(4) =~= be_bytes_u32(f.0)@);
    assert(input.subrange(4, 4 + f.0) =~= f.1);
    assert(input.skip(4 + f.0) =~= rest);
}

/// Re-encoding a decoded frame gives back exactly the bytes that it was decoded from.
pub proof fn lemma_frame_reencode(input: Seq<u8>)
    ensures
        frame_split(input) matches Some((f, rest)) ==> frame_bytes(f) + rest == input,
{
    if let Some((f, rest)) = frame_split(input) {
        lemma_be_u32_bytes_round_trip(input.take(4));
        assert(frame_bytes(f) + rest =~= input);
    }
}

/// Round trip of a frame through a sink and a stream: where the header counts the
/// payload, a frame written whole to a sink, then read back from a stream that holds what
/// the write added followed by `rest`, decodes to the same frame and leaves exactly `rest`.
pub proof fn lemma_frame_stream_round_trip<W: BinaryWrite, R: BinaryRead>(
    f: Frame,
    sink_before: W,
    sink_after: W,
    stream_before: R,
    stream_after: R,
    decoded: Result<Frame, std::io::Error>,
    rest: Seq<u8>,
)
    requires
        f.length_header@ == f.payload@.len(),
        <Frame as TryEncode<W>>::encodes(&f, sink_before, sink_after, Ok(())),
        stream_before.unread() == sink_after.written().skip(sink_before.written().len() as int)
            + rest,
        <Frame as TryDecode<R>>::decodes(stream_before, stream_after, decoded),
    ensures
        decoded matches Ok(g) && g@ == f@,
        stream_after.unread() == rest,
{
    assert(sink_after.written().skip(sink_before.written().len() as int) =~= frame_bytes(f@));
    lemma_frame_round_trip(f@, rest);
}

} // verus!
