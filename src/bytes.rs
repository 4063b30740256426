//! Unsigned integers read from and written to byte blocks, in either byte order.
use vstd::prelude::*;

verus! {

/// The number that four bytes give, most significant byte first.
pub open spec fn be_u32(b: Seq<u8>) -> u32
    recommends
        b.len() == 4,
{
    (b[0] * 0x100_0000 + b[1] * 0x1_0000 + b[2] * 0x100 + b[3]) as u32
}

/// The four bytes of `v`, most significant byte first.
pub open spec fn be_bytes_u32(v: u32) -> [u8; 4] {
    [(v / 0x100_0000) as u8, (v / 0x1_0000 % 0x100) as u8, (v / 0x100 % 0x100) as u8, (v % 0x100) as u8]
}

/// The number that four bytes give, least significant byte first.
pub open spec fn le_u32(b: Seq<u8>) -> u32
    recommends
        b.len() == 4,
{
    (b[3] * 0x100_0000 + b[2] * 0x1_0000 + b[1] * 0x100 + b[0]) as u32
}

/// The four bytes of `v`, least significant byte first.
pub open spec fn le_bytes_u32(v: u32) -> [u8; 4] {
    [(v % 0x100) as u8, (v / 0x100 % 0x100) as u8, (v / 0x1_0000 % 0x100) as u8, (v / 0x100_0000) as u8]
}

/// The number that two bytes give, least significant byte first.
pub open spec fn le_u16(b: Seq<u8>) -> u16
    recommends
        b.len() == 2,
{
    (b[1] * 0x100 + b[0]) as u16
}

/// The two bytes of `v`, least significant byte first.
pub open spec fn le_bytes_u16(v: u16) -> [u8; 2] {
    [(v % 0x100) as u8, (v / 0x100) as u8]
}

pub fn u32_from_be_bytes(b: [u8; 4]) -> (r: u32)
    ensures
        r == be_u32(b@),
{
    (b[0] as u32) * 0x100_0000 + (b[1] as u32) * 0x1_0000 + (b[2] as u32) * 0x100 + (b[3] as u32)
}

pub fn u32_to_be_bytes(v: u32) -> (r: [u8; 4])
    ensures
        r == be_bytes_u32(v),
{
    [(v / 0x100_0000) as u8, (v / 0x1_0000 % 0x100) as u8, (v / 0x100 % 0x100) as u8, (v % 0x100) as u8]
}

pub fn u32_from_le_bytes(b: [u8; 4]) -> (r: u32)
    ensures
        r == le_u32(b@),
{
    (b[3] as u32) * 0x100_0000 + (b[2] as u32) * 0x1_0000 + (b[1] as u32) * 0x100 + (b[0] as u32)
}

pub fn u32_to_le_bytes(v: u32) -> (r: [u8; 4])
    ensures
        r == le_bytes_u32(v),
{
    [(v % 0x100) as u8, (v / 0x100 % 0x100) as u8, (v / 0x1_0000 % 0x100) as u8, (v / 0x100_0000) as u8]
}

pub fn u16_from_le_bytes(b: [u8; 2]) -> (r: u16)
    ensures
        r == le_u16(b@),
{
    (b[1] as u16) * 0x100 + (b[0] as u16)
}

pub fn u16_to_le_bytes(v: u16) -> (r: [u8; 2])
    ensures
        r == le_bytes_u16(v),
{
    [(v % 0x100) as u8, (v / 0x100) as u8]
}

/// Reading back the big-endian bytes of `v` gives `v`.
pub proof fn lemma_be_u32_round_trip(v: u32)
    ensures
        be_u32(be_bytes_u32(v)@) == v,
{
}

/// Writing the number that four big-endian bytes give yields those bytes.
pub proof fn lemma_be_u32_bytes_round_trip(b: Seq<u8>)
    requires
        b.len() == 4,
    ensures
        be_bytes_u32(be_u32(b))@ == b,
{
    let x = b[0] * 0x100_0000 + b[1] * 0x1_0000 + b[2] * 0x100 + b[3];
    lemma_digits(b[0] as int, b[1] as int, b[2] as int, b[3] as int);
    assert(be_u32(b) == x);
    assert(be_bytes_u32(be_u32(b))@ =~= b);
}

/// The base-256 digits of a four-digit number are the digits it was built from.
proof fn lemma_digits(d3: int, d2: int, d1: int, d0: int)
    requires
        0 <= d3 < 0x100,
        0 <= d2 < 0x100,
        0 <= d1 < 0x100,
        0 <= d0 < 0x100,
    ensures
        ({
            let x = d3 * 0x100_0000 + d2 * 0x1_0000 + d1 * 0x100 + d0;
            &&& 0 <= x < 0x1_0000_0000
            &&& x / 0x100_0000 == d3
            &&& x / 0x1_0000 % 0x100 == d2
            &&& x / 0x100 % 0x100 == d1
            &&& x % 0x100 == d0
        }),
{
    let x = d3 * 0x100_0000 + d2 * 0x1_0000 + d1 * 0x100 + d0;
    assert(x / 0x100_0000 == d3) by (nonlinear_arith)
        requires
            x == d3 * 0x100_0000 + d2 * 0x1_0000 + d1 * 0x100 + d0,
            0 <= d2 < 0x100,
            0 <= d1 < 0x100,
            0 <= d0 < 0x100,
    ;
    assert(x / 0x1_0000 == d3 * 0x100 + d2) by (nonlinear_arith)
        requires
            x == d3 * 0x100_0000 + d2 * 0x1_0000 + d1 * 0x100 + d0,
            0 <= d1 < 0x100,
            0 <= d0 < 0x100,
    ;
    assert(x / 0x100 == d3 * 0x1_0000 + d2 * 0x100 + d1) by (nonlinear_arith)
        requires
            x == d3 * 0x100_0000 + d2 * 0x1_0000 + d1 * 0x100 + d0,
            0 <= d0 < 0x100,
    ;
}

/// Reading back the little-endian bytes of `v` gives `v`.
pub proof fn lemma_le_u32_round_trip(v: u32)
    ensures
        le_u32(le_bytes_u32(v)@) == v,
{
}

/// Reading back the little-endian bytes of `v` gives `v`.
pub proof fn lemma_le_u16_round_trip(v: u16)
    ensures
        le_u16(le_bytes_u16(v)@) == v,
{
}

} // verus!
