//! Capture records.
//!
//! A record is a fixed header of four 32-bit fields (seconds, sub-second
//! units, captured length, length on the wire) followed by as many payload bytes
//! as the captured length says. Variants of the format put further fixed
//! fields between the header and the payload.

use vstd::prelude::*;
use vstd::slice::slice_subrange;
use crate::byte_order::u32_value;
use crate::byte_order::Endian;
use crate::byte_order::Endianness;
use crate::errors::PcapError;
use crate::errors::ResultParsing;
use crate::pcap::header::TsResolution;
use crate::source::read_exact;
use crate::source::ByteSource;

verus! {

/// Length in bytes of the header that every record starts with.
pub const RECORD_HEADER_LEN: usize = 16;

/// Nanoseconds in one second.
pub const NANOS_PER_SEC: u64 = 1_000_000_000;

/// Nanoseconds in one sub-second unit of resolution `res`.
pub open spec fn nanos_per_unit(res: TsResolution) -> int {
    match res {
        TsResolution::MicroSecond => 1_000,
        TsResolution::NanoSecond => 1,
    }
}

/// The instant `secs` seconds and `frac` sub-second units after the epoch, in
/// nanoseconds.
pub open spec fn instant_of(res: TsResolution, secs: int, frac: int) -> int {
    secs * NANOS_PER_SEC + frac * nanos_per_unit(res)
}

/// The header that every record starts with.
#[derive(Clone, Copy, Debug, PartialEq, Eq, Structural)]
pub struct PacketHeader {
    /// Time of capture in nanoseconds since the epoch.
    pub timestamp: u64,
    /// Number of payload bytes stored in the file.
    pub captured_len: u32,
    /// Number of bytes that the packet had on the wire.
    pub orig_len: u32,
}

/// The record header encoded by the first 16 bytes of `b` in byte order `e`,
/// its sub-second field counted in units of `res`.
pub open spec fn record_header_of(e: Endianness, res: TsResolution, b: Seq<u8>) -> PacketHeader {
    PacketHeader {
        timestamp: instant_of(
            res,
            u32_value(e, b.subrange(0, 4)),
            u32_value(e, b.subrange(4, 8)),
        ) as u64,
        captured_len: u32_value(e, b.subrange(8, 12)) as u32,
        orig_len: u32_value(e, b.subrange(12, 16)) as u32,
    }
}

impl PacketHeader {
    /// Decodes a record header from the first 16 bytes of `bytes`.
    ///
    /// The captured length is taken as it stands: it is held neither to the
    /// file's snapshot length nor to the length on the wire.
    pub fn parse<B: Endian>(bytes: &[u8], ts_resolution: TsResolution) -> (h: PacketHeader)
        requires
            bytes@.len() >= RECORD_HEADER_LEN,
        ensures
            h == record_header_of(B::endianness(), ts_resolution, bytes@),
    {
        let secs: u32 = B::read_u32(slice_subrange(bytes, 0, 4));
        let frac: u32 = B::read_u32(slice_subrange(bytes, 4, 8));
        let unit: u64 = match ts_resolution {
            TsResolution::MicroSecond => 1_000,
            TsResolution::NanoSecond => 1,
        };
        let timestamp: u64 = (secs as u64) * NANOS_PER_SEC + (frac as u64) * unit;
        PacketHeader {
            timestamp,
            captured_len: B::read_u32(slice_subrange(bytes, 8, 12)),
            orig_len: B::read_u32(slice_subrange(bytes, 12, 16)),
        }
    }
}

/// The model of a decoding result: the record by its view.
pub open spec fn result_view<P: View>(r: Result<P, PcapError>) -> Result<P::V, PcapError> {
    match r {
        Ok(p) => Ok(p@),
        Err(e) => Err(e),
    }
}

/// What decoding returns when the source does not fail, given what the
/// source's bytes decode to: the record, or `UnexpectedEof` when the bytes end
/// before the record does.
pub open spec fn decode_outcome<V>(d: Option<(V, nat)>) -> Result<V, PcapError> {
    match d {
        Some((v, _)) => Ok(v),
        None => Err(PcapError::UnexpectedEof),
    }
}

/// What a source that held `b` still holds after decoding, if it did not
/// fail: the bytes behind the record, or nothing when the record was cut off.
pub open spec fn decode_rest<V>(d: Option<(V, nat)>, b: Seq<u8>) -> Seq<u8> {
    match d {
        Some((_, k)) => b.skip(k as int),
        None => Seq::empty(),
    }
}

/// A record layout: how one record is decoded from a byte source.
///
/// The model of a decoder is `decoded`, a function of the bytes that the
/// source holds. `from_reader` is held to it.
pub trait SomePacket: Sized + View {
    /// The record at the start of `b` together with the number of bytes that
    /// it occupies, or `None` when `b` ends before the record does.
    spec fn decoded(e: Endianness, res: TsResolution, b: Seq<u8>) -> Option<(Self::V, nat)>;

    /// Decodes one record from `reader` in byte order `B`.
    ///
    /// Fails with `UnexpectedEof` when the source ends inside the record; the
    /// source is then drained.
    fn from_reader<R: ByteSource, B: Endian>(
        reader: &mut R,
        ts_resolution: TsResolution,
    ) -> (r: ResultParsing<Self>)
        ensures
            final(reader).reliable() == old(reader).reliable(),
            final(reader).remaining().is_suffix_of(old(reader).remaining()),
            match r {
                Err(PcapError::Io(_)) => !old(reader).reliable(),
                _ => {
                    let d = Self::decoded(B::endianness(), ts_resolution, old(reader).remaining());
                    &&& result_view(r) == decode_outcome(d)
                    &&& final(reader).remaining() == decode_rest(d, old(reader).remaining())
                },
            },
    ;
}

/// A standard record: header and payload.
#[derive(Debug, PartialEq, Eq)]
pub struct Packet {
    pub header: PacketHeader,
    /// The captured bytes, `header.captured_len` of them.
    pub data: Vec<u8>,
}

/// Model of a standard record.
pub struct PacketView {
    pub header: PacketHeader,
    pub data: Seq<u8>,
}

impl View for Packet {
    type V = PacketView;

    open spec fn view(&self) -> PacketView {
        PacketView { header: self.header, data: self.data@ }
    }
}

impl Packet {
    /// The payload is as long as the header says.
    pub open spec fn wf(&self) -> bool {
        self.data@.len() == self.header.captured_len
    }
}

impl SomePacket for Packet {
    open spec fn decoded(e: Endianness, res: TsResolution, b: Seq<u8>) -> Option<(PacketView, nat)> {
        if b.len() < RECORD_HEADER_LEN {
            None
        } else {
            let header = record_header_of(e, res, b);
            let end = RECORD_HEADER_LEN + header.captured_len;
            if b.len() < end {
                None
            } else {
                Some((PacketView { header, data: b.subrange(RECORD_HEADER_LEN as int, end) }, end as nat))
            }
        }
    }

    fn from_reader<R: ByteSource, B: Endian>(
        reader: &mut R,
        ts_resolution: TsResolution,
    ) -> (r: ResultParsing<Self>)
        ensures
            r matches Ok(p) ==> p.wf(),
    {
        let ghost b = old(reader).remaining();
        let fixed = match read_exact(reader, RECORD_HEADER_LEN) {
            Ok(bytes) => bytes,
            Err(e) => {
                return Err(e);
            },
        };
        let header = PacketHeader::parse::<B>(fixed.as_slice(), ts_resolution);
        proof {
            lemma_record_header_reads_prefix(B::endianness(), ts_resolution, b);
        }
        let ghost mid = reader.remaining();
        let data = match read_exact(reader, header.captured_len as usize) {
            Ok(bytes) => bytes,
            Err(e) => {
                proof {
                    lemma_suffix_chain(reader.remaining(), mid, b);
                }
                return Err(e);
            },
        };
        proof {
            let end = RECORD_HEADER_LEN + header.captured_len;
            assert(data@ =~= b.subrange(RECORD_HEADER_LEN as int, end));
            assert(reader.remaining() =~= b.skip(end));
            lemma_suffix_chain(reader.remaining(), mid, b);
        }
        Ok(Packet { header, data })
    }
}

/// A record header is decoded from the first 16 bytes only.
pub proof fn lemma_record_header_reads_prefix(e: Endianness, res: TsResolution, b: Seq<u8>)
    requires
        b.len() >= RECORD_HEADER_LEN,
    ensures
        record_header_of(e, res, b.take(RECORD_HEADER_LEN as int)) == record_header_of(e, res, b),
{
    let p = b.take(RECORD_HEADER_LEN as int);
    assert(p.subrange(0, 4) =~= b.subrange(0, 4));
    assert(p.subrange(4, 8) =~= b.subrange(4, 8));
    assert(p.subrange(8, 12) =~= b.subrange(8, 12));
    assert(p.subrange(12, 16) =~= b.subrange(12, 16));
}

/// A suffix of a suffix is a suffix.
pub proof fn lemma_suffix_chain(a: Seq<u8>, b: Seq<u8>, c: Seq<u8>)
    requires
        a.is_suffix_of(b),
        b.is_suffix_of(c),
    ensures
        a.is_suffix_of(c),
{
    assert(a =~= c.skip(c.len() - a.len()));
}

/// The payload of a decoded standard record is exactly as long as its
/// captured length field says, and the record occupies its header and its
/// payload.
pub proof fn lemma_packet_payload_len(e: Endianness, res: TsResolution, b: Seq<u8>)
    requires
        Packet::decoded(e, res, b) is Some,
    ensures
        ({
            let (v, k) = Packet::decoded(e, res, b)->Some_0;
            &&& v.data.len() == v.header.captured_len
            &&& k == RECORD_HEADER_LEN + v.header.captured_len
            &&& k <= b.len()
        }),
{
}

} // verus!
