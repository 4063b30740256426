//! The fixed part of a bitmap file: its file header, and its colour table, whose entry
//! size depends on the bit depth read before it.
use vstd::prelude::*;

use crate::bytes::{
    le_bytes_u16, le_bytes_u32, le_u16, le_u32, lemma_le_u16_round_trip, lemma_le_u32_round_trip,
    u16_from_le_bytes, u16_to_le_bytes, u32_from_le_bytes, u32_to_le_bytes,
};
use crate::decode::{
    BinaryDecode, TryDecode, TryDecodeFixedLengthField, TryDecodeVariableLengthFieldWith,
    TryDecodeWith, lifted, split_block, view_result,
};
use crate::encode::{EncodeFixedLengthField, EncodeVariableLengthField, TryEncode, wrote};
use crate::error::CodecError;
use crate::stream::{BinaryRead, BinaryWrite};

verus! {

/// The two bytes that open every bitmap file, `BM`.
pub const SIGNATURE: [u8; 2] = [0x42, 0x4d];

/// The signature field of a file header, as a field of its own: two bytes that must be
/// `BM`.
#[derive(Debug, Clone, Copy, PartialEq, Eq)]
pub struct Signature(pub [u8; 2]);

/// Two bytes that should have been `BM`.
#[derive(Debug, Clone, Copy, PartialEq, Eq)]
pub struct InvalidSignature(pub [u8; 2]);

impl View for Signature {
    type V = [u8; 2];

    open spec fn view(&self) -> [u8; 2] {
        self.0
    }
}

impl TryDecodeFixedLengthField<2> for Signature {
    type Error = InvalidSignature;

    open spec fn try_from_fixed(bytes: Seq<u8>) -> Result<[u8; 2], InvalidSignature> {
        if bytes == SIGNATURE@ {
            Ok(SIGNATURE)
        } else {
            Err(InvalidSignature([bytes[0], bytes[1]]))
        }
    }

    fn handle(bytes: [u8; 2]) -> (r: Result<Self, InvalidSignature>) {
        if bytes[0] == SIGNATURE[0] && bytes[1] == SIGNATURE[1] {
            assert(bytes@ =~= SIGNATURE@);
            Ok(Signature(SIGNATURE))
        } else {
            let ghost same: [u8; 2] = [bytes@[0], bytes@[1]];
            assert(bytes =~= same);
            Err(InvalidSignature(bytes))
        }
    }
}

impl EncodeFixedLengthField<2> for Signature {
    open spec fn to_fixed(v: [u8; 2]) -> [u8; 2] {
        v
    }

    fn handle(&self) -> (r: [u8; 2]) {
        self.0
    }
}

/// The file header: signature, file size, two reserved words and the offset of the pixel
/// data, all little-endian.
#[derive(Debug, Clone, Copy, PartialEq, Eq)]
pub struct BitmapFileHeader {
    pub signature: [u8; 2],
    pub file_size: u32,
    pub reserved_1: u16,
    pub reserved_2: u16,
    pub offset: u32,
}

/// Why a file header could not be read.
#[derive(Debug)]
pub enum BitmapFileHeaderError {
    /// The first two bytes were not `BM`; they are given.
    InvalidSignature([u8; 2]),
    Io(std::io::Error),
}

/// The header that the fourteen bytes `b` hold.
pub open spec fn file_header_of(b: Seq<u8>) -> BitmapFileHeader {
    BitmapFileHeader {
        signature: [b[0], b[1]],
        file_size: le_u32(b.subrange(2, 6)),
        reserved_1: le_u16(b.subrange(6, 8)),
        reserved_2: le_u16(b.subrange(8, 10)),
        offset: le_u32(b.subrange(10, 14)),
    }
}

/// The fourteen bytes of the header `h`.
pub open spec fn file_header_bytes(h: BitmapFileHeader) -> Seq<u8> {
    h.signature@ + le_bytes_u32(h.file_size)@ + le_bytes_u16(h.reserved_1)@ + le_bytes_u16(
        h.reserved_2,
    )@ + le_bytes_u32(h.offset)@
}

impl<R: BinaryRead> TryDecode<R> for BitmapFileHeader {
    type Error = BitmapFileHeaderError;

    /// The signature is checked as soon as its two bytes are read: a wrong one ends the
    /// read there, with only those two bytes consumed.
    open spec fn decodes(before: R, after: R, r: Result<Self, BitmapFileHeaderError>) -> bool {
        let input = before.unread();
        if input.len() < 2 {
            r matches Err(BitmapFileHeaderError::Io(_))
        } else if input.take(2) != SIGNATURE@ {
            &&& r matches Err(BitmapFileHeaderError::InvalidSignature(s)) && s@ == input.take(2)
            &&& after.unread() == input.skip(2)
        } else if input.len() < 14 {
            r matches Err(BitmapFileHeaderError::Io(_))
        } else {
            &&& r == Ok::<Self, BitmapFileHeaderError>(file_header_of(input.take(14)))
            &&& after.unread() == input.skip(14)
        }
    }

    fn handle(reader: &mut R) -> (r: Result<Self, BitmapFileHeaderError>) {
        let ghost input = reader.unread();
        let signature = match reader.try_decode_fixed_length_field::<Signature, 2>() {
            Err(CodecError::Io(e)) => return Err(BitmapFileHeaderError::Io(e)),
            Err(CodecError::UserDefined(InvalidSignature(s))) => {
                assert(s@ =~= input.take(2));
                return Err(BitmapFileHeaderError::InvalidSignature(s));
            },
            Ok(Signature(s)) => s,
        };
        let file_size = match reader.read_fixed_length::<4>() {
            Err(e) => return Err(BitmapFileHeaderError::Io(e)),
            Ok(bytes) => u32_from_le_bytes(bytes),
        };
        let reserved_1 = match reader.read_fixed_length::<2>() {
            Err(e) => return Err(BitmapFileHeaderError::Io(e)),
            Ok(bytes) => u16_from_le_bytes(bytes),
        };
        let reserved_2 = match reader.read_fixed_length::<2>() {
            Err(e) => return Err(BitmapFileHeaderError::Io(e)),
            Ok(bytes) => u16_from_le_bytes(bytes),
        };
        let offset = match reader.read_fixed_length::<4>() {
            Err(e) => return Err(BitmapFileHeaderError::Io(e)),
            Ok(bytes) => u32_from_le_bytes(bytes),
        };
        let h = BitmapFileHeader { signature, file_size, reserved_1, reserved_2, offset };
        proof {
            assert(input.skip(2).skip(4).skip(2).skip(2).skip(4) =~= input.skip(14));
            assert(input.skip(2).take(4) =~= input.take(14).subrange(2, 6));
            assert(input.skip(2).skip(4).take(2) =~= input.take(14).subrange(6, 8));
            assert(input.skip(2).skip(4).skip(2).take(2) =~= input.take(14).subrange(8, 10));
            assert(input.skip(2).skip(4).skip(2).skip(2).take(4) =~= input.take(14).subrange(
                10,
                14,
            ));
            assert(h.signature =~= file_header_of(input.take(14)).signature);
        }
        Ok(h)
    }
}

impl<W: BinaryWrite> TryEncode<W> for BitmapFileHeader {
    type Error = std::io::Error;

    open spec fn encodes(&self, before: W, after: W, r: Result<(), std::io::Error>) -> bool {
        wrote(before, after, file_header_bytes(*self), r)
    }

    fn handle(&self, writer: &mut W) -> (r: Result<(), std::io::Error>) {
        let ghost start = *writer;
        let file_size = u32_to_le_bytes(self.file_size);
        let reserved_1 = u16_to_le_bytes(self.reserved_1);
        let reserved_2 = u16_to_le_bytes(self.reserved_2);
        let offset = u32_to_le_bytes(self.offset);
        writer.write_all(self.signature.as_slice())?;
        writer.write_all(file_size.as_slice())?;
        writer.write_all(reserved_1.as_slice())?;
        writer.write_all(reserved_2.as_slice())?;
        let r = writer.write_all(offset.as_slice());
        proof {
            if r is Ok {
                assert(writer.written() =~= start.written() + file_header_bytes(*self));
            }
        }
        r
    }
}

/// Round trip of a file header with the right signature: its fourteen bytes followed by
/// `rest` decode to the same header and leave exactly `rest`.
pub proof fn lemma_file_header_round_trip(h: BitmapFileHeader, rest: Seq<u8>)
    requires
        h.signature@ == SIGNATURE@,
    ensures
        ({
            let input = file_header_bytes(h) + rest;
            &&& input.take(2) == SIGNATURE@
            &&& 14 <= input.len()
            &&& file_header_of(input.take(14)) == h
            &&& input.skip(14) == rest
        }),
{
    let input = file_header_bytes(h) + rest;
    lemma_le_u32_round_trip(h.file_size);
    lemma_le_u16_round_trip(h.reserved_1);
    lemma_le_u16_round_trip(h.reserved_2);
    lemma_le_u32_round_trip(h.offset);
    assert(input.take(2) =~= SIGNATURE@);
    assert(input.take(14).subrange(2, 6) =~= le_bytes_u32(h.file_size)@);
    assert(input.take(14).subrange(6, 8) =~= le_bytes_u16(h.reserved_1)@);
    assert(input.take(14).subrange(8, 10) =~= le_bytes_u16(h.reserved_2)@);
    assert(input.take(14).subrange(10, 14) =~= le_bytes_u32(h.offset)@);
    assert(file_header_of(input.take(14)).signature =~= h.signature);
    assert(input.skip(14) =~= rest);
}

/// A colour table entry of three bytes, stored blue, green, red.
#[derive(Debug, Clone, Copy, PartialEq, Eq)]
pub struct RgbTriple {
    pub r: u8,
    pub g: u8,
    pub b: u8,
}

/// A colour table entry of four bytes, stored blue, green, red, reserved.
#[derive(Debug, Clone, Copy, PartialEq, Eq)]
pub struct RgbQuad {
    pub r: u8,
    pub g: u8,
    pub b: u8,
    pub reserved: u8,
}

/// A colour table: entries of four bytes (32-bit colour) or of three (24-bit colour).
#[derive(Debug, PartialEq, Eq)]
pub enum ColorTable {
    RgbQuad(Vec<RgbQuad>),
    RgbTriple(Vec<RgbTriple>),
}

/// The entries of a colour table.
pub enum ColorTableView {
    RgbQuad(Seq<RgbQuad>),
    RgbTriple(Seq<RgbTriple>),
}

impl View for ColorTable {
    type V = ColorTableView;

    open spec fn view(&self) -> ColorTableView {
        match self {
            ColorTable::RgbQuad(v) => ColorTableView::RgbQuad(v@),
            ColorTable::RgbTriple(v) => ColorTableView::RgbTriple(v@),
        }
    }
}

/// Why a block of bytes is no colour table under the given bit depth.
#[derive(Debug, Clone, Copy, PartialEq, Eq)]
pub enum ColorTableError {
    /// The bit depth is neither 24 nor 32; it is given.
    UnsupportedColorPalette(u16),
    /// The block is not a whole number of entries; its length is given.
    InvalidDataLength(usize),
}

/// The three-byte entries that `b` holds, in order.
pub open spec fn triples_of(b: Seq<u8>) -> Seq<RgbTriple> {
    Seq::new(b.len() / 3, |i: int| RgbTriple { b: b[3 * i], g: b[3 * i + 1], r: b[3 * i + 2] })
}

/// The four-byte entries that `b` holds, in order.
pub open spec fn quads_of(b: Seq<u8>) -> Seq<RgbQuad> {
    Seq::new(
        b.len() / 4,
        |i: int| RgbQuad { b: b[4 * i], g: b[4 * i + 1], r: b[4 * i + 2], reserved: b[4 * i + 3] },
    )
}

/// The bytes of the three-byte entries `s`.
pub open spec fn triples_bytes(s: Seq<RgbTriple>) -> Seq<u8> {
    Seq::new(
        3 * s.len(),
        |j: int|
            if j % 3 == 0 {
                s[j / 3].b
            } else if j % 3 == 1 {
                s[j / 3].g
            } else {
                s[j / 3].r
            },
    )
}

/// The bytes of the four-byte entries `s`.
pub open spec fn quads_bytes(s: Seq<RgbQuad>) -> Seq<u8> {
    Seq::new(
        4 * s.len(),
        |j: int|
            if j % 4 == 0 {
                s[j / 4].b
            } else if j % 4 == 1 {
                s[j / 4].g
            } else if j % 4 == 2 {
                s[j / 4].r
            } else {
                s[j / 4].reserved
            },
    )
}

/// Under bit depth 24 the block is read as three-byte entries, under 32 as four-byte
/// entries; the same bytes give different tables under the two.
impl TryDecodeVariableLengthFieldWith<u16> for ColorTable {
    type Error = ColorTableError;

    open spec fn try_from_variable_with(bytes: Seq<u8>, bit_count: u16) -> Result<
        ColorTableView,
        ColorTableError,
    > {
        if bit_count == 24 {
            if bytes.len() % 3 != 0 {
                Err(ColorTableError::InvalidDataLength(bytes.len() as usize))
            } else {
                Ok(ColorTableView::RgbTriple(triples_of(bytes)))
            }
        } else if bit_count == 32 {
            if bytes.len() % 4 != 0 {
                Err(ColorTableError::InvalidDataLength(bytes.len() as usize))
            } else {
                Ok(ColorTableView::RgbQuad(quads_of(bytes)))
            }
        } else {
            Err(ColorTableError::UnsupportedColorPalette(bit_count))
        }
    }

    fn handle(bytes: Vec<u8>, bit_count: u16) -> (r: Result<Self, ColorTableError>) {
        let n = bytes.len();
        if bit_count == 24 {
            if n % 3 != 0 {
                return Err(ColorTableError::InvalidDataLength(n));
            }
            let mut list: Vec<RgbTriple> = Vec::new();
            let mut i: usize = 0;
            while i < n / 3
                invariant
                    n == bytes@.len(),
                    n % 3 == 0,
                    i <= n / 3,
                    list@ =~= triples_of(bytes@).take(i as int),
                decreases n / 3 - i,
            {
                let k = 3 * i;
                list.push(RgbTriple { b: bytes[k], g: bytes[k + 1], r: bytes[k + 2] });
                i += 1;
            }
            assert(triples_of(bytes@).take(i as int) =~= triples_of(bytes@));
            Ok(ColorTable::RgbTriple(list))
        } else if bit_count == 32 {
            if n % 4 != 0 {
                return Err(ColorTableError::InvalidDataLength(n));
            }
            let mut list: Vec<RgbQuad> = Vec::new();
            let mut i: usize = 0;
            while i < n / 4
                invariant
                    n == bytes@.len(),
                    n % 4 == 0,
                    i <= n / 4,
                    list@ =~= quads_of(bytes@).take(i as int),
                decreases n / 4 - i,
            {
                let k = 4 * i;
                list.push(
                    RgbQuad { b: bytes[k], g: bytes[k + 1], r: bytes[k + 2], reserved: bytes[k + 3] },
                );
                i += 1;
            }
            assert(quads_of(bytes@).take(i as int) =~= quads_of(bytes@));
            Ok(ColorTable::RgbQuad(list))
        } else {
            Err(ColorTableError::UnsupportedColorPalette(bit_count))
        }
    }
}

/// The bytes of one colour table entry at bit depth 24 (three) or 32 (four).
pub open spec fn entry_size(bit_count: u16) -> u32 {
    if bit_count == 24 {
        3
    } else {
        4
    }
}

/// What a colour table needs from the headers read before it: its length in bytes and
/// the bit depth of the image.
#[derive(Debug, Clone, Copy, PartialEq, Eq)]
pub struct ColorTableContext {
    pub length: u32,
    pub bit_count: u16,
}

/// Read from the stream, a colour table first checks the context: a bit depth other than
/// 24 or 32, or a length that is not a whole number of entries, is refused before any
/// byte is read. Otherwise it takes `ctx.length` bytes and reads them under
/// `ctx.bit_count`.
impl<R: BinaryRead> TryDecodeWith<R, ColorTableContext> for ColorTable {
    type Error = CodecError<ColorTableError>;

    open spec fn decodes_with(
        before: R,
        after: R,
        ctx: ColorTableContext,
        r: Result<Self, CodecError<ColorTableError>>,
    ) -> bool {
        if ctx.bit_count != 24 && ctx.bit_count != 32 {
            &&& r matches Err(CodecError::UserDefined(e))
                && e == ColorTableError::UnsupportedColorPalette(ctx.bit_count)
            &&& after.unread() == before.unread()
        } else if ctx.length % entry_size(ctx.bit_count) != 0 {
            &&& r matches Err(CodecError::UserDefined(e)) && e
                == ColorTableError::InvalidDataLength(ctx.length as usize)
            &&& after.unread() == before.unread()
        } else {
            match split_block(before.unread(), ctx.length as nat) {
                None => r matches Err(CodecError::Io(_)),
                Some((block, rest)) => view_result(r) == lifted(
                    ColorTable::try_from_variable_with(block, ctx.bit_count),
                ) && after.unread() == rest,
            }
        }
    }

    fn handle(reader: &mut R, ctx: ColorTableContext) -> (r: Result<
        Self,
        CodecError<ColorTableError>,
    >) {
        if ctx.bit_count != 24 && ctx.bit_count != 32 {
            return Err(
                CodecError::UserDefined(ColorTableError::UnsupportedColorPalette(ctx.bit_count)),
            );
        }
        let size: u32 = if ctx.bit_count == 24 {
            3
        } else {
            4
        };
        if ctx.length % size != 0 {
            return Err(
                CodecError::UserDefined(ColorTableError::InvalidDataLength(ctx.length as usize)),
            );
        }
        reader.try_decode_variable_length_field_with(ctx.length as usize, ctx.bit_count)
    }
}

impl EncodeVariableLengthField for ColorTable {
    open spec fn to_variable(v: ColorTableView) -> Seq<u8> {
        match v {
            ColorTableView::RgbQuad(s) => quads_bytes(s),
            ColorTableView::RgbTriple(s) => triples_bytes(s),
        }
    }

    fn handle(&self) -> (r: Vec<u8>) {
        let mut out: Vec<u8> = Vec::new();
        match self {
            ColorTable::RgbTriple(list) => {
                let mut i: usize = 0;
                while i < list.len()
                    invariant
                        i <= list@.len(),
                        out@ =~= triples_bytes(list@.take(i as int)),
                    decreases list@.len() - i,
                {
                    let e = list[i];
                    out.push(e.b);
                    out.push(e.g);
                    out.push(e.r);
                    i += 1;
                }
                assert(list@.take(list@.len() as int) =~= list@);
            },
            ColorTable::RgbQuad(list) => {
                let mut i: usize = 0;
                while i < list.len()
                    invariant
                        i <= list@.len(),
                        out@ =~= quads_bytes(list@.take(i as int)),
                    decreases list@.len() - i,
                {
                    let e = list[i];
                    out.push(e.b);
                    out.push(e.g);
                    out.push(e.r);
                    out.push(e.reserved);
                    i += 1;
                }
                assert(list@.take(list@.len() as int) =~= list@);
            },
        }
        out
    }
}

/// The bit depth whose entries a colour table holds.
pub open spec fn bit_count_of(v: ColorTableView) -> u16 {
    match v {
        ColorTableView::RgbQuad(_) => 32,
        ColorTableView::RgbTriple(_) => 24,
    }
}

/// Round trip of a colour table: its bytes, read under the bit depth of its entries, give
/// back the same entries.
pub proof fn lemma_color_table_round_trip(v: ColorTableView)
    ensures
        ColorTable::try_from_variable_with(ColorTable::to_variable(v), bit_count_of(v)) == Ok::<
            ColorTableView,
            ColorTableError,
        >(v),
{
    match v {
        ColorTableView::RgbTriple(s) => {
            let b = triples_bytes(s);
            assert(b.len() % 3 == 0 && b.len() / 3 == s.len()) by (nonlinear_arith)
                requires
                    b.len() == 3 * s.len(),
            ;
            assert forall|i: int| 0 <= i < s.len() implies #[trigger] triples_of(b)[i] == s[i] by {
                assert((3 * i) % 3 == 0 && (3 * i) / 3 == i) by (nonlinear_arith);
                assert((3 * i + 1) % 3 == 1 && (3 * i + 1) / 3 == i) by (nonlinear_arith);
                assert((3 * i + 2) % 3 == 2 && (3 * i + 2) / 3 == i) by (nonlinear_arith);
            }
            assert(triples_of(b) =~= s);
        },
        ColorTableView::RgbQuad(s) => {
            let b = quads_bytes(s);
            assert(b.len() % 4 == 0 && b.len() / 4 == s.len()) by (nonlinear_arith)
                requires
                    b.len() == 4 * s.len(),
            ;
            assert forall|i: int| 0 <= i < s.len() implies #[trigger] quads_of(b)[i] == s[i] by {
                assert((4 * i) % 4 == 0 && (4 * i) / 4 == i) by (nonlinear_arith);
                assert((4 * i + 1) % 4 == 1 && (4 * i + 1) / 4 == i) by (nonlinear_arith);
                assert((4 * i + 2) % 4 == 2 && (4 * i + 2) / 4 == i) by (nonlinear_arith);
                assert((4 * i + 3) % 4 == 3 && (4 * i + 3) / 4 == i) by (nonlinear_arith);
            }
            assert(quads_of(b) =~= s);
        },
    }
}

/// Round trip of a file header through a sink and a stream: a header with the right
/// signature, written whole to a sink, then read back from a stream that holds what the
/// write added followed by `rest`, decodes to the same header and leaves exactly `rest`.
pub proof fn lemma_file_header_stream_round_trip<W: BinaryWrite, R: BinaryRead>(
    h: BitmapFileHeader,
    sink_before: W,
    sink_after: W,
    stream_before: R,
    stream_after: R,
    decoded: Result<BitmapFileHeader, BitmapFileHeaderError>,
    rest: Seq<u8>,
)
    requires
        h.signature@ == SIGNATURE@,
        <BitmapFileHeader as TryEncode<W>>::encodes(&h, sink_before, sink_after, Ok(())),
        stream_before.unread() == sink_after.written().skip(sink_before.written().len() as int)
            + rest,
        <BitmapFileHeader as TryDecode<R>>::decodes(stream_before, stream_after, decoded),
    ensures
        decoded == Ok::<BitmapFileHeader, BitmapFileHeaderError>(h),
        stream_after.unread() == rest,
{
    assert(sink_after.written().skip(sink_before.written().len() as int) =~= file_header_bytes(
        h,
    ));
    lemma_file_header_round_trip(h, rest);
}

/// Round trip of a colour table through a sink and a stream under its context: a table
/// written whole to a sink, then read back under a context that gives its byte length and
/// the bit depth of its entries, from a stream that holds what the write added followed
/// by `rest`, decodes to the same entries and leaves exactly `rest`.
pub proof fn lemma_color_table_stream_round_trip<W: BinaryWrite, R: BinaryRead>(
    t: ColorTable,
    ctx: ColorTableContext,
    sink_before: W,
    sink_after: W,
    stream_before: R,
    stream_after: R,
    decoded: Result<ColorTable, CodecError<ColorTableError>>,
    rest: Seq<u8>,
)
    requires
        wrote(sink_before, sink_after, ColorTable::to_variable(t@), Ok::<(), std::io::Error>(())),
        ctx.length == ColorTable::to_variable(t@).len(),
        ctx.bit_count == bit_count_of(t@),
        stream_before.unread() == sink_after.written().skip(sink_before.written().len() as int)
            + rest,
        <ColorTable as TryDecodeWith<R, ColorTableContext>>::decodes_with(
            stream_before,
            stream_after,
            ctx,
            decoded,
        ),
    ensures
        decoded matches Ok(g) && g@ == t@,
        stream_after.unread() == rest,
{
    let b = ColorTable::to_variable(t@);
    assert(sink_after.written().skip(sink_before.written().len() as int) =~= b);
    lemma_color_table_round_trip(t@);
    assert((b + rest).take(b.len() as int) =~= b);
    assert((b + rest).skip(b.len() as int) =~= rest);
}

} // verus!
