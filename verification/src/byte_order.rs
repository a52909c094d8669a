//! Byte order of multi-byte fields.
//!
//! The integers themselves are decoded and encoded by the `byteorder` crate.
//! What it returns is stated here as arithmetic on the bytes, so the contracts
//! of the parsers can speak about field values directly.

use vstd::prelude::*;
use vstd::arithmetic::div_mod::lemma_fundamental_div_mod_converse;

verus! {

/// The byte order that a capture file declares through its magic number.
#[derive(Clone, Copy, Debug, PartialEq, Eq, Structural)]
pub enum Endianness {
    Big,
    Little,
}

/// Value of the first two bytes of `b`, most significant byte first.
#[verifier::opaque]
pub open spec fn u16_be(b: Seq<u8>) -> int {
    b[0] * 0x100 + b[1]
}

/// Value of the first two bytes of `b`, least significant byte first.
#[verifier::opaque]
pub open spec fn u16_le(b: Seq<u8>) -> int {
    b[1] * 0x100 + b[0]
}

/// Value of the first four bytes of `b`, most significant byte first.
#[verifier::opaque]
pub open spec fn u32_be(b: Seq<u8>) -> int {
    b[0] * 0x100_0000 + b[1] * 0x1_0000 + b[2] * 0x100 + b[3]
}

/// Value of the first four bytes of `b`, least significant byte first.
#[verifier::opaque]
pub open spec fn u32_le(b: Seq<u8>) -> int {
    b[3] * 0x100_0000 + b[2] * 0x1_0000 + b[1] * 0x100 + b[0]
}

/// The two bytes of `n`, most significant first.
#[verifier::opaque]
pub open spec fn u16_be_bytes(n: u16) -> Seq<u8> {
    seq![(n / 0x100) as u8, (n % 0x100) as u8]
}

/// The two bytes of `n`, least significant first.
#[verifier::opaque]
pub open spec fn u16_le_bytes(n: u16) -> Seq<u8> {
    seq![(n % 0x100) as u8, (n / 0x100) as u8]
}

/// The four bytes of `n`, most significant first.
#[verifier::opaque]
pub open spec fn u32_be_bytes(n: u32) -> Seq<u8> {
    seq![
        (n / 0x100_0000) as u8,
        (n / 0x1_0000 % 0x100) as u8,
        (n / 0x100 % 0x100) as u8,
        (n % 0x100) as u8,
    ]
}

/// The four bytes of `n`, least significant first.
#[verifier::opaque]
pub open spec fn u32_le_bytes(n: u32) -> Seq<u8> {
    seq![
        (n % 0x100) as u8,
        (n / 0x100 % 0x100) as u8,
        (n / 0x1_0000 % 0x100) as u8,
        (n / 0x100_0000) as u8,
    ]
}

/// Value of the first two bytes of `b` in byte order `e`.
pub open spec fn u16_value(e: Endianness, b: Seq<u8>) -> int {
    match e {
        Endianness::Big => u16_be(b),
        Endianness::Little => u16_le(b),
    }
}

/// Value of the first four bytes of `b` in byte order `e`.
pub open spec fn u32_value(e: Endianness, b: Seq<u8>) -> int {
    match e {
        Endianness::Big => u32_be(b),
        Endianness::Little => u32_le(b),
    }
}

/// The two bytes that encode `n` in byte order `e`.
pub open spec fn u16_bytes(e: Endianness, n: u16) -> Seq<u8> {
    match e {
        Endianness::Big => u16_be_bytes(n),
        Endianness::Little => u16_le_bytes(n),
    }
}

/// The four bytes that encode `n` in byte order `e`.
pub open spec fn u32_bytes(e: Endianness, n: u32) -> Seq<u8> {
    match e {
        Endianness::Big => u32_be_bytes(n),
        Endianness::Little => u32_le_bytes(n),
    }
}

/// A 32-bit pattern read as a two's complement number.
pub open spec fn signed32(v: int) -> int {
    if v < 0x8000_0000 {
        v
    } else {
        v - 0x1_0000_0000
    }
}

/// The 32-bit pattern of a two's complement number.
pub open spec fn unsigned32(v: int) -> int {
    if v < 0 {
        v + 0x1_0000_0000
    } else {
        v
    }
}

/// Reads a 32-bit pattern as a two's complement number.
pub fn to_signed(v: u32) -> (r: i32)
    ensures
        r == signed32(v as int),
{
    if v < 0x8000_0000 {
        v as i32
    } else {
        let low: i32 = (v - 0x8000_0000) as i32;
        low + i32::MIN
    }
}

/// The 32-bit pattern of a two's complement number.
pub fn to_unsigned(v: i32) -> (r: u32)
    ensures
        r == unsigned32(v as int),
{
    if v >= 0 {
        v as u32
    } else {
        let low: u32 = (v - i32::MIN) as u32;
        low + 0x8000_0000
    }
}

/// Reading a number as signed and writing it back gives the same pattern, and
/// the other way round.
pub proof fn lemma_signed_round_trip(v: u32, w: i32)
    ensures
        unsigned32(signed32(v as int)) == v,
        signed32(unsigned32(w as int)) == w,
        i32::MIN <= signed32(v as int) <= i32::MAX,
        0 <= unsigned32(w as int) <= u32::MAX,
{
}

/// Encoding the value that two bytes decode to gives the two bytes back.
pub proof fn lemma_u16_bytes_of_value(e: Endianness, b: Seq<u8>)
    requires
        b.len() == 2,
    ensures
        0 <= u16_value(e, b) <= u16::MAX,
        u16_bytes(e, u16_value(e, b) as u16) == b,
{
    reveal(u16_be);
    reveal(u16_le);
    reveal(u16_be_bytes);
    reveal(u16_le_bytes);
    assert(u16_bytes(e, u16_value(e, b) as u16) =~= b);
}

/// Decoding the bytes that encode a 16-bit number gives the number back.
pub proof fn lemma_u16_value_of_bytes(e: Endianness, n: u16)
    ensures
        u16_bytes(e, n).len() == 2,
        u16_value(e, u16_bytes(e, n)) == n,
{
    reveal(u16_be);
    reveal(u16_le);
    reveal(u16_be_bytes);
    reveal(u16_le_bytes);
}

/// The four base-256 digits of a number that is given by its digits.
proof fn lemma_digits(d3: int, d2: int, d1: int, d0: int)
    requires
        0 <= d3 < 0x100,
        0 <= d2 < 0x100,
        0 <= d1 < 0x100,
        0 <= d0 < 0x100,
    ensures
        ({
            let n = d3 * 0x100_0000 + d2 * 0x1_0000 + d1 * 0x100 + d0;
            &&& 0 <= n <= u32::MAX
            &&& n / 0x100_0000 == d3
            &&& n / 0x1_0000 % 0x100 == d2
            &&& n / 0x100 % 0x100 == d1
            &&& n % 0x100 == d0
        }),
{
    let n = d3 * 0x100_0000 + d2 * 0x1_0000 + d1 * 0x100 + d0;
    lemma_fundamental_div_mod_converse(n, 0x100_0000, d3, d2 * 0x1_0000 + d1 * 0x100 + d0);
    lemma_fundamental_div_mod_converse(n, 0x1_0000, d3 * 0x100 + d2, d1 * 0x100 + d0);
    lemma_fundamental_div_mod_converse(d3 * 0x100 + d2, 0x100, d3, d2);
    lemma_fundamental_div_mod_converse(n, 0x100, d3 * 0x1_0000 + d2 * 0x100 + d1, d0);
    lemma_fundamental_div_mod_converse(d3 * 0x1_0000 + d2 * 0x100 + d1, 0x100, d3 * 0x100 + d2, d1);
}

/// Encoding the value that four bytes decode to gives the four bytes back.
pub proof fn lemma_u32_bytes_of_value(e: Endianness, b: Seq<u8>)
    requires
        b.len() == 4,
    ensures
        0 <= u32_value(e, b) <= u32::MAX,
        u32_bytes(e, u32_value(e, b) as u32) == b,
{
    reveal(u32_be);
    reveal(u32_le);
    reveal(u32_be_bytes);
    reveal(u32_le_bytes);
    match e {
        Endianness::Big => lemma_digits(b[0] as int, b[1] as int, b[2] as int, b[3] as int),
        Endianness::Little => lemma_digits(b[3] as int, b[2] as int, b[1] as int, b[0] as int),
    }
    assert(u32_bytes(e, u32_value(e, b) as u32) =~= b);
}

/// Decoding the bytes that encode a 32-bit number gives the number back.
pub proof fn lemma_u32_value_of_bytes(e: Endianness, n: u32)
    ensures
        u32_bytes(e, n).len() == 4,
        u32_value(e, u32_bytes(e, n)) == n,
{
    reveal(u32_be);
    reveal(u32_le);
    reveal(u32_be_bytes);
    reveal(u32_le_bytes);
}

/// A 32-bit value is decoded from the first four bytes only.
pub proof fn lemma_u32_reads_prefix(e: Endianness, b: Seq<u8>)
    requires
        b.len() >= 4,
    ensures
        u32_value(e, b.subrange(0, 4)) == u32_value(e, b),
{
    reveal(u32_be);
    reveal(u32_le);
}

/// `byteorder::BigEndian::read_u16`: the first two bytes of `buf` read as a
/// big-endian integer. The outside function panics on a shorter buffer.
#[verifier::external_body]
fn be_read_u16(buf: &[u8]) -> (v: u16)
    requires
        buf@.len() >= 2,
    ensures
        v == u16_be(buf@),
{
    <byteorder::BigEndian as byteorder::ByteOrder>::read_u16(buf)
}

/// `byteorder::LittleEndian::read_u16`: the first two bytes of `buf` read as a
/// little-endian integer. The outside function panics on a shorter buffer.
#[verifier::external_body]
fn le_read_u16(buf: &[u8]) -> (v: u16)
    requires
        buf@.len() >= 2,
    ensures
        v == u16_le(buf@),
{
    <byteorder::LittleEndian as byteorder::ByteOrder>::read_u16(buf)
}

/// `byteorder::BigEndian::read_u32`: the first four bytes of `buf` read as a
/// big-endian integer. The outside function panics on a shorter buffer.
#[verifier::external_body]
fn be_read_u32(buf: &[u8]) -> (v: u32)
    requires
        buf@.len() >= 4,
    ensures
        v == u32_be(buf@),
{
    <byteorder::BigEndian as byteorder::ByteOrder>::read_u32(buf)
}

/// `byteorder::LittleEndian::read_u32`: the first four bytes of `buf` read as a
/// little-endian integer. The outside function panics on a shorter buffer.
#[verifier::external_body]
fn le_read_u32(buf: &[u8]) -> (v: u32)
    requires
        buf@.len() >= 4,
    ensures
        v == u32_le(buf@),
{
    <byteorder::LittleEndian as byteorder::ByteOrder>::read_u32(buf)
}

/// `byteorder::BigEndian::write_u16` on a fresh two-byte buffer: the bytes of
/// `n`, most significant first.
#[verifier::external_body]
fn be_write_u16(n: u16) -> (out: [u8; 2])
    ensures
        out@ == u16_be_bytes(n),
{
    let mut out = [0u8; 2];
    <byteorder::BigEndian as byteorder::ByteOrder>::write_u16(&mut out, n);
    out
}

/// `byteorder::LittleEndian::write_u16` on a fresh two-byte buffer: the bytes
/// of `n`, least significant first.
#[verifier::external_body]
fn le_write_u16(n: u16) -> (out: [u8; 2])
    ensures
        out@ == u16_le_bytes(n),
{
    let mut out = [0u8; 2];
    <byteorder::LittleEndian as byteorder::ByteOrder>::write_u16(&mut out, n);
    out
}

/// `byteorder::BigEndian::write_u32` on a fresh four-byte buffer: the bytes of
/// `n`, most significant first.
#[verifier::external_body]
fn be_write_u32(n: u32) -> (out: [u8; 4])
    ensures
        out@ == u32_be_bytes(n),
{
    let mut out = [0u8; 4];
    <byteorder::BigEndian as byteorder::ByteOrder>::write_u32(&mut out, n);
    out
}

/// `byteorder::LittleEndian::write_u32` on a fresh four-byte buffer: the bytes
/// of `n`, least significant first.
#[verifier::external_body]
fn le_write_u32(n: u32) -> (out: [u8; 4])
    ensures
        out@ == u32_le_bytes(n),
{
    let mut out = [0u8; 4];
    <byteorder::LittleEndian as byteorder::ByteOrder>::write_u32(&mut out, n);
    out
}

/// The marker type `byteorder::BigEndian`; it has no values.
#[verifier::external_type_specification]
#[verifier::external_body]
pub struct ExBigEndian(byteorder::BigEndian);

/// The marker type `byteorder::LittleEndian`; it has no values.
#[verifier::external_type_specification]
#[verifier::external_body]
pub struct ExLittleEndian(byteorder::LittleEndian);

/// A byte order chosen at compile time.
///
/// Decoders are generic over this trait, so each byte order gets its own
/// specialised decode path and no field read branches on the order at run time.
pub trait Endian {
    /// The byte order that this marker stands for.
    spec fn endianness() -> Endianness;

    /// The byte order that this marker stands for, as a value.
    fn order() -> (e: Endianness)
        ensures
            e == Self::endianness(),
    ;

    /// Reads a 16-bit integer from the first two bytes of `buf`.
    fn read_u16(buf: &[u8]) -> (v: u16)
        requires
            buf@.len() >= 2,
        ensures
            v == u16_value(Self::endianness(), buf@),
    ;

    /// Reads a 32-bit integer from the first four bytes of `buf`.
    fn read_u32(buf: &[u8]) -> (v: u32)
        requires
            buf@.len() >= 4,
        ensures
            v == u32_value(Self::endianness(), buf@),
    ;

    /// Encodes a 16-bit integer.
    fn write_u16(n: u16) -> (out: [u8; 2])
        ensures
            out@ == u16_bytes(Self::endianness(), n),
    ;

    /// Encodes a 32-bit integer.
    fn write_u32(n: u32) -> (out: [u8; 4])
        ensures
            out@ == u32_bytes(Self::endianness(), n),
    ;
}

impl Endian for byteorder::BigEndian {
    open spec fn endianness() -> Endianness {
        Endianness::Big
    }

    fn order() -> (e: Endianness) {
        Endianness::Big
    }

    fn read_u16(buf: &[u8]) -> (v: u16) {
        be_read_u16(buf)
    }

    fn read_u32(buf: &[u8]) -> (v: u32) {
        be_read_u32(buf)
    }

    fn write_u16(n: u16) -> (out: [u8; 2]) {
        be_write_u16(n)
    }

    fn write_u32(n: u32) -> (out: [u8; 4]) {
        be_write_u32(n)
    }
}

impl Endian for byteorder::LittleEndian {
    open spec fn endianness() -> Endianness {
        Endianness::Little
    }

    fn order() -> (e: Endianness) {
        Endianness::Little
    }

    fn read_u16(buf: &[u8]) -> (v: u16) {
        le_read_u16(buf)
    }

    fn read_u32(buf: &[u8]) -> (v: u32) {
        le_read_u32(buf)
    }

    fn write_u16(n: u16) -> (out: [u8; 2]) {
        le_write_u16(n)
    }

    fn write_u32(n: u32) -> (out: [u8; 4]) {
        le_write_u32(n)
    }
}

/// Appends `bytes` to `out`.
pub fn push_bytes(out: &mut Vec<u8>, bytes: &[u8])
    ensures
        final(out)@ == old(out)@ + bytes@,
{
    let mut i: usize = 0;
    while i < bytes.len()
        invariant
            i <= bytes@.len(),
            out@ == old(out)@ + bytes@.take(i as int),
        decreases bytes@.len() - i,
    {
        out.push(bytes[i]);
        i = i + 1;
        assert(out@ =~= old(out)@ + bytes@.take(i as int));
    }
    assert(bytes@.take(i as int) =~= bytes@);
}

} // verus!
