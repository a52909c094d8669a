//! The 24-byte global header of a capture file.
//!
//! | offset | size | field                       |
//! |--------|------|-----------------------------|
//! | 0      | 4    | magic number                |
//! | 4      | 2    | major version               |
//! | 6      | 2    | minor version               |
//! | 8      | 4    | time zone correction        |
//! | 12     | 4    | timestamp accuracy          |
//! | 16     | 4    | snapshot length             |
//! | 20     | 4    | link-layer type             |

use vstd::prelude::*;
use vstd::slice::slice_subrange;
use crate::byte_order::push_bytes;
use crate::byte_order::signed32;
use crate::byte_order::to_signed;
use crate::byte_order::to_unsigned;
use crate::byte_order::u16_bytes;
use crate::byte_order::u16_value;
use crate::byte_order::u32_be;
use crate::byte_order::u32_bytes;
use crate::byte_order::u32_value;
use crate::byte_order::unsigned32;
use crate::byte_order::lemma_signed_round_trip;
use crate::byte_order::lemma_u16_bytes_of_value;
use crate::byte_order::lemma_u16_value_of_bytes;
use crate::byte_order::lemma_u32_bytes_of_value;
use crate::byte_order::lemma_u32_value_of_bytes;
use crate::byte_order::lemma_u32_reads_prefix;
use crate::byte_order::u32_be_bytes;
use crate::byte_order::u32_le_bytes;
use crate::byte_order::Endian;
use crate::byte_order::Endianness;
use crate::errors::PcapError;
use crate::errors::ResultParsing;
use crate::source::exact_rest;
use crate::source::read_exact;
use crate::source::ByteSource;

verus! {

/// Length of the global header in bytes.
pub const HEADER_LEN: usize = 24;

/// Magic number of a capture with microsecond timestamps.
pub const MAGIC_MICROS: u32 = 0xA1B2_C3D4;

/// Magic number of a capture with nanosecond timestamps.
pub const MAGIC_NANOS: u32 = 0xA1B2_3C4D;

/// `MAGIC_MICROS` with its bytes reversed.
pub const MAGIC_MICROS_SWAPPED: u32 = 0xD4C3_B2A1;

/// `MAGIC_NANOS` with its bytes reversed.
pub const MAGIC_NANOS_SWAPPED: u32 = 0x4D3C_B2A1;

/// Unit of the sub-second part of a record's timestamp.
#[derive(Clone, Copy, Debug, PartialEq, Eq, Structural)]
pub enum TsResolution {
    MicroSecond,
    NanoSecond,
}

/// What a magic number means, given the first four bytes of the stream read
/// most significant byte first. A magic number that reads as itself was
/// written big-endian; one that reads byte-reversed was written little-endian.
pub open spec fn magic_meaning(first: int) -> Option<(Endianness, TsResolution)> {
    if first == MAGIC_MICROS {
        Some((Endianness::Big, TsResolution::MicroSecond))
    } else if first == MAGIC_NANOS {
        Some((Endianness::Big, TsResolution::NanoSecond))
    } else if first == MAGIC_MICROS_SWAPPED {
        Some((Endianness::Little, TsResolution::MicroSecond))
    } else if first == MAGIC_NANOS_SWAPPED {
        Some((Endianness::Little, TsResolution::NanoSecond))
    } else {
        None
    }
}

/// The magic number that announces timestamps of resolution `res`.
pub open spec fn magic_of(res: TsResolution) -> u32 {
    match res {
        TsResolution::MicroSecond => MAGIC_MICROS,
        TsResolution::NanoSecond => MAGIC_NANOS,
    }
}

/// The global header. Byte order and timestamp resolution stand for the magic
/// number; the remaining fields are carried as they were read.
#[derive(Clone, Copy, Debug, PartialEq, Eq, Structural)]
pub struct PcapHeader {
    /// Byte order of every multi-byte field of the file.
    pub endianness: Endianness,
    /// Unit of the sub-second part of the records' timestamps.
    pub ts_resolution: TsResolution,
    pub version_major: u16,
    pub version_minor: u16,
    /// Correction in seconds between GMT and the local time zone.
    pub ts_correction: i32,
    pub ts_accuracy: u32,
    /// Largest number of bytes that the capture stored per packet.
    pub snaplen: u32,
    /// Link-layer type of every packet of the file.
    pub datalink: u32,
}

/// The header whose fields are read from the first 24 bytes of `b` in byte
/// order `e`, for a magic number that announced `e` and `res`.
pub open spec fn fields_of(e: Endianness, res: TsResolution, b: Seq<u8>) -> PcapHeader {
    PcapHeader {
        endianness: e,
        ts_resolution: res,
        version_major: u16_value(e, b.subrange(4, 6)) as u16,
        version_minor: u16_value(e, b.subrange(6, 8)) as u16,
        ts_correction: signed32(u32_value(e, b.subrange(8, 12))) as i32,
        ts_accuracy: u32_value(e, b.subrange(12, 16)) as u32,
        snaplen: u32_value(e, b.subrange(16, 20)) as u32,
        datalink: u32_value(e, b.subrange(20, 24)) as u32,
    }
}

/// The result of parsing a stream that starts with the bytes `b`.
pub open spec fn header_of(b: Seq<u8>) -> Result<PcapHeader, PcapError> {
    if b.len() < HEADER_LEN {
        Err(PcapError::UnexpectedEof)
    } else {
        match magic_meaning(u32_be(b)) {
            Some((e, res)) => Ok(fields_of(e, res, b)),
            None => Err(PcapError::BadMagicNumber),
        }
    }
}

impl PcapHeader {
    /// The 24 bytes that encode this header.
    pub open spec fn bytes(self) -> Seq<u8> {
        let e = self.endianness;
        u32_bytes(e, magic_of(self.ts_resolution)) + u16_bytes(e, self.version_major) + u16_bytes(
            e,
            self.version_minor,
        ) + u32_bytes(e, unsigned32(self.ts_correction as int) as u32) + u32_bytes(
            e,
            self.ts_accuracy,
        ) + u32_bytes(e, self.snaplen) + u32_bytes(e, self.datalink)
    }

    /// Byte order of the file.
    pub fn endianness(&self) -> (e: Endianness)
        ensures
            e == self.endianness,
    {
        self.endianness
    }

    /// Unit of the sub-second part of the records' timestamps.
    pub fn ts_resolution(&self) -> (res: TsResolution)
        ensures
            res == self.ts_resolution,
    {
        self.ts_resolution
    }

    /// The magic number as the file's own byte order reads it.
    pub fn magic_number(&self) -> (m: u32)
        ensures
            m == magic_of(self.ts_resolution),
    {
        match self.ts_resolution {
            TsResolution::MicroSecond => MAGIC_MICROS,
            TsResolution::NanoSecond => MAGIC_NANOS,
        }
    }

    /// Decodes the fields behind the magic number in byte order `B`.
    fn parse_fields<B: Endian>(bytes: &[u8], res: TsResolution) -> (h: PcapHeader)
        requires
            bytes@.len() >= HEADER_LEN,
        ensures
            h == fields_of(B::endianness(), res, bytes@),
    {
        PcapHeader {
            endianness: B::order(),
            ts_resolution: res,
            version_major: B::read_u16(slice_subrange(bytes, 4, 6)),
            version_minor: B::read_u16(slice_subrange(bytes, 6, 8)),
            ts_correction: to_signed(B::read_u32(slice_subrange(bytes, 8, 12))),
            ts_accuracy: B::read_u32(slice_subrange(bytes, 12, 16)),
            snaplen: B::read_u32(slice_subrange(bytes, 16, 20)),
            datalink: B::read_u32(slice_subrange(bytes, 20, 24)),
        }
    }

    /// Parses the global header at the start of `bytes`.
    ///
    /// Fails with `UnexpectedEof` on fewer than 24 bytes, and with
    /// `BadMagicNumber` when the first four bytes are no known magic number in
    /// either byte order. The version numbers are not checked.
    pub fn parse(bytes: &[u8]) -> (r: ResultParsing<PcapHeader>)
        ensures
            r == header_of(bytes@),
    {
        if bytes.len() < HEADER_LEN {
            return Err(PcapError::UnexpectedEof);
        }
        let first: u32 = <byteorder::BigEndian as Endian>::read_u32(bytes);
        if first == MAGIC_MICROS {
            Ok(Self::parse_fields::<byteorder::BigEndian>(bytes, TsResolution::MicroSecond))
        } else if first == MAGIC_NANOS {
            Ok(Self::parse_fields::<byteorder::BigEndian>(bytes, TsResolution::NanoSecond))
        } else if first == MAGIC_MICROS_SWAPPED {
            Ok(Self::parse_fields::<byteorder::LittleEndian>(bytes, TsResolution::MicroSecond))
        } else if first == MAGIC_NANOS_SWAPPED {
            Ok(Self::parse_fields::<byteorder::LittleEndian>(bytes, TsResolution::NanoSecond))
        } else {
            Err(PcapError::BadMagicNumber)
        }
    }

    /// Reads the global header from `reader`, leaving it at the first record.
    ///
    /// Takes exactly 24 bytes off the source, also when the magic number is
    /// rejected. A source that holds fewer is drained.
    pub fn from_reader<R: ByteSource>(reader: &mut R) -> (r: ResultParsing<PcapHeader>)
        ensures
            final(reader).reliable() == old(reader).reliable(),
            final(reader).remaining().is_suffix_of(old(reader).remaining()),
            match r {
                Err(PcapError::Io(_)) => !old(reader).reliable(),
                _ => {
                    &&& r == header_of(old(reader).remaining())
                    &&& final(reader).remaining() == exact_rest(
                        old(reader).remaining(),
                        HEADER_LEN as nat,
                    )
                },
            },
    {
        match read_exact(reader, HEADER_LEN) {
            Ok(bytes) => {
                assert(bytes@.len() == HEADER_LEN);
                proof {
                    lemma_header_reads_prefix(old(reader).remaining());
                }
                Self::parse(bytes.as_slice())
            },
            Err(e) => Err(e),
        }
    }

    /// Encodes the fields in byte order `B`.
    fn write_fields<B: Endian>(&self) -> (out: Vec<u8>)
        requires
            self.endianness == B::endianness(),
        ensures
            out@ == self.bytes(),
    {
        let mut out: Vec<u8> = Vec::new();
        push_bytes(&mut out, B::write_u32(self.magic_number()).as_slice());
        push_bytes(&mut out, B::write_u16(self.version_major).as_slice());
        push_bytes(&mut out, B::write_u16(self.version_minor).as_slice());
        push_bytes(&mut out, B::write_u32(to_unsigned(self.ts_correction)).as_slice());
        push_bytes(&mut out, B::write_u32(self.ts_accuracy).as_slice());
        push_bytes(&mut out, B::write_u32(self.snaplen).as_slice());
        push_bytes(&mut out, B::write_u32(self.datalink).as_slice());
        out
    }

    /// Encodes this header as the 24 bytes that `parse` reads it from.
    pub fn to_bytes(&self) -> (out: Vec<u8>)
        ensures
            out@ == self.bytes(),
            out@.len() == HEADER_LEN,
    {
        proof {
            lemma_header_bytes_len(*self);
        }
        match self.endianness {
            Endianness::Big => self.write_fields::<byteorder::BigEndian>(),
            Endianness::Little => self.write_fields::<byteorder::LittleEndian>(),
        }
    }
}

/// Parsing looks at the first 24 bytes only.
pub proof fn lemma_header_reads_prefix(b: Seq<u8>)
    requires
        b.len() >= HEADER_LEN,
    ensures
        header_of(b.take(HEADER_LEN as int)) == header_of(b),
{
    let p = b.take(HEADER_LEN as int);
    lemma_u32_reads_prefix(Endianness::Big, b);
    lemma_u32_reads_prefix(Endianness::Big, p);
    assert(p.subrange(0, 4) =~= b.subrange(0, 4));
    assert(p.subrange(4, 6) =~= b.subrange(4, 6));
    assert(p.subrange(6, 8) =~= b.subrange(6, 8));
    assert(p.subrange(8, 12) =~= b.subrange(8, 12));
    assert(p.subrange(12, 16) =~= b.subrange(12, 16));
    assert(p.subrange(16, 20) =~= b.subrange(16, 20));
    assert(p.subrange(20, 24) =~= b.subrange(20, 24));
}

/// A header encodes to 24 bytes.
pub proof fn lemma_header_bytes_len(h: PcapHeader)
    ensures
        h.bytes().len() == HEADER_LEN,
{
    let e = h.endianness;
    lemma_u32_value_of_bytes(e, magic_of(h.ts_resolution));
    lemma_u16_value_of_bytes(e, h.version_major);
    lemma_u16_value_of_bytes(e, h.version_minor);
    lemma_u32_value_of_bytes(e, unsigned32(h.ts_correction as int) as u32);
    lemma_u32_value_of_bytes(e, h.ts_accuracy);
    lemma_u32_value_of_bytes(e, h.snaplen);
    lemma_u32_value_of_bytes(e, h.datalink);
}

/// A stream of at least 24 bytes starts with its seven header fields, in
/// order.
proof fn lemma_fields_make_prefix(b: Seq<u8>)
    requires
        b.len() >= HEADER_LEN,
    ensures
        b.subrange(0, 4) + b.subrange(4, 6) + b.subrange(6, 8) + b.subrange(8, 12) + b.subrange(
            12,
            16,
        ) + b.subrange(16, 20) + b.subrange(20, 24) == b.take(HEADER_LEN as int),
{
    assert(b.subrange(0, 4) + b.subrange(4, 6) + b.subrange(6, 8) + b.subrange(8, 12) + b.subrange(
        12,
        16,
    ) + b.subrange(16, 20) + b.subrange(20, 24) =~= b.take(HEADER_LEN as int));
}

/// The seven fields of a header can be cut out of their concatenation.
proof fn lemma_prefix_makes_fields(
    f0: Seq<u8>,
    f1: Seq<u8>,
    f2: Seq<u8>,
    f3: Seq<u8>,
    f4: Seq<u8>,
    f5: Seq<u8>,
    f6: Seq<u8>,
)
    requires
        f0.len() == 4,
        f1.len() == 2,
        f2.len() == 2,
        f3.len() == 4,
        f4.len() == 4,
        f5.len() == 4,
        f6.len() == 4,
    ensures
        ({
            let b = f0 + f1 + f2 + f3 + f4 + f5 + f6;
            &&& b.len() == HEADER_LEN
            &&& b.subrange(0, 4) == f0
            &&& b.subrange(4, 6) == f1
            &&& b.subrange(6, 8) == f2
            &&& b.subrange(8, 12) == f3
            &&& b.subrange(12, 16) == f4
            &&& b.subrange(16, 20) == f5
            &&& b.subrange(20, 24) == f6
        }),
{
    let b = f0 + f1 + f2 + f3 + f4 + f5 + f6;
    assert(b.subrange(0, 4) =~= f0);
    assert(b.subrange(4, 6) =~= f1);
    assert(b.subrange(6, 8) =~= f2);
    assert(b.subrange(8, 12) =~= f3);
    assert(b.subrange(12, 16) =~= f4);
    assert(b.subrange(16, 20) =~= f5);
    assert(b.subrange(20, 24) =~= f6);
}

/// The four bytes that were recognised as a magic number are the bytes that
/// encode the magic number of that resolution in that byte order.
proof fn lemma_magic_bytes_of_meaning(first: Seq<u8>)
    requires
        first.len() == 4,
        magic_meaning(u32_be(first)) is Some,
    ensures
        ({
            let (e, res) = magic_meaning(u32_be(first))->Some_0;
            u32_bytes(e, magic_of(res)) == first
        }),
{
    lemma_u32_bytes_of_value(Endianness::Big, first);
    lemma_swapped_magic();
}

/// A magic number written little-endian gives the bytes of its byte-reversed
/// form written big-endian.
proof fn lemma_swapped_magic()
    ensures
        u32_bytes(Endianness::Little, MAGIC_MICROS) == u32_bytes(
            Endianness::Big,
            MAGIC_MICROS_SWAPPED,
        ),
        u32_bytes(Endianness::Little, MAGIC_NANOS) == u32_bytes(
            Endianness::Big,
            MAGIC_NANOS_SWAPPED,
        ),
{
    reveal(u32_be_bytes);
    reveal(u32_le_bytes);
    assert(u32_le_bytes(MAGIC_MICROS) =~= u32_be_bytes(MAGIC_MICROS_SWAPPED));
    assert(u32_le_bytes(MAGIC_NANOS) =~= u32_be_bytes(MAGIC_NANOS_SWAPPED));
}

/// The bytes that encode a magic number are recognised as that magic number.
proof fn lemma_magic_meaning_of_bytes(e: Endianness, res: TsResolution)
    ensures
        magic_meaning(u32_be(u32_bytes(e, magic_of(res)))) == Some((e, res)),
{
    lemma_swapped_magic();
    lemma_u32_value_of_bytes(Endianness::Big, MAGIC_MICROS);
    lemma_u32_value_of_bytes(Endianness::Big, MAGIC_NANOS);
    lemma_u32_value_of_bytes(Endianness::Big, MAGIC_MICROS_SWAPPED);
    lemma_u32_value_of_bytes(Endianness::Big, MAGIC_NANOS_SWAPPED);
}

/// Parsing a stream and encoding the header again gives the stream's first 24
/// bytes back, byte for byte.
pub proof fn lemma_parse_then_encode(b: Seq<u8>)
    requires
        header_of(b) is Ok,
    ensures
        header_of(b)->Ok_0.bytes() == b.take(HEADER_LEN as int),
{
    let h = header_of(b)->Ok_0;
    let e = h.endianness;
    let f0 = b.subrange(0, 4);
    assert(u32_bytes(e, magic_of(h.ts_resolution)) == f0) by {
        lemma_u32_reads_prefix(Endianness::Big, b);
        lemma_magic_bytes_of_meaning(f0);
    }
    assert(u16_bytes(e, h.version_major) == b.subrange(4, 6)) by {
        lemma_u16_bytes_of_value(e, b.subrange(4, 6));
    }
    assert(u16_bytes(e, h.version_minor) == b.subrange(6, 8)) by {
        lemma_u16_bytes_of_value(e, b.subrange(6, 8));
    }
    assert(u32_bytes(e, unsigned32(h.ts_correction as int) as u32) == b.subrange(8, 12)) by {
        lemma_u32_bytes_of_value(e, b.subrange(8, 12));
        lemma_signed_round_trip(u32_value(e, b.subrange(8, 12)) as u32, 0);
    }
    assert(u32_bytes(e, h.ts_accuracy) == b.subrange(12, 16)) by {
        lemma_u32_bytes_of_value(e, b.subrange(12, 16));
    }
    assert(u32_bytes(e, h.snaplen) == b.subrange(16, 20)) by {
        lemma_u32_bytes_of_value(e, b.subrange(16, 20));
    }
    assert(u32_bytes(e, h.datalink) == b.subrange(20, 24)) by {
        lemma_u32_bytes_of_value(e, b.subrange(20, 24));
    }
    lemma_fields_make_prefix(b);
}

/// Encoding a header and parsing the bytes gives the header back.
pub proof fn lemma_encode_then_parse(h: PcapHeader)
    ensures
        header_of(h.bytes()) == Ok::<PcapHeader, PcapError>(h),
{
    let e = h.endianness;
    let b = h.bytes();
    let f0 = u32_bytes(e, magic_of(h.ts_resolution));
    let f1 = u16_bytes(e, h.version_major);
    let f2 = u16_bytes(e, h.version_minor);
    let f3 = u32_bytes(e, unsigned32(h.ts_correction as int) as u32);
    let f4 = u32_bytes(e, h.ts_accuracy);
    let f5 = u32_bytes(e, h.snaplen);
    let f6 = u32_bytes(e, h.datalink);
    lemma_u32_value_of_bytes(e, magic_of(h.ts_resolution));
    lemma_u16_value_of_bytes(e, h.version_major);
    lemma_u16_value_of_bytes(e, h.version_minor);
    lemma_u32_value_of_bytes(e, unsigned32(h.ts_correction as int) as u32);
    lemma_signed_round_trip(0, h.ts_correction);
    lemma_u32_value_of_bytes(e, h.ts_accuracy);
    lemma_u32_value_of_bytes(e, h.snaplen);
    lemma_u32_value_of_bytes(e, h.datalink);
    lemma_prefix_makes_fields(f0, f1, f2, f3, f4, f5, f6);
    lemma_u32_reads_prefix(Endianness::Big, b);
    lemma_magic_meaning_of_bytes(e, h.ts_resolution);
}

} // verus!
