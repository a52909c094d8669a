//! The capture reader: a global header and the records behind it.

use vstd::prelude::*;
use std::marker::PhantomData;
use crate::byte_order::Endianness;
use crate::errors::PcapError;
use crate::errors::ResultParsing;
use crate::byte_order::u32_be;
use crate::pcap::header::fields_of;
use crate::pcap::header::header_of;
use crate::pcap::header::TsResolution;
use crate::pcap::header::PcapHeader;
use crate::pcap::header::HEADER_LEN;
use crate::pcap::packet::decode_outcome;
use crate::pcap::packet::decode_rest;
use crate::pcap::packet::SomePacket;
use crate::peek_reader::PeekReader;
use crate::peek_reader::PeekState;
use crate::source::ByteSource;

verus! {

/// What a pull returns for a reader with header `h` whose source holds `b`
/// and does not fail: nothing at the end of the source, else the record that
/// `b` starts with, decoded in the header's byte order and resolution.
pub open spec fn pulled<P: SomePacket>(h: PcapHeader, b: Seq<u8>) -> Option<
    Result<P::V, PcapError>,
> {
    if b.len() == 0 {
        None
    } else {
        Some(decode_outcome(P::decoded(h.endianness, h.ts_resolution, b)))
    }
}

/// What the source still holds after such a pull.
pub open spec fn rest_after_pull<P: SomePacket>(h: PcapHeader, b: Seq<u8>) -> Seq<u8> {
    if b.len() == 0 {
        b
    } else {
        decode_rest(P::decoded(h.endianness, h.ts_resolution, b), b)
    }
}

/// The model of what a pull returned: the record by its view.
pub open spec fn pull_view<P: SomePacket>(r: Option<Result<P, PcapError>>) -> Option<
    Result<P::V, PcapError>,
> {
    match r {
        None => None,
        Some(Ok(p)) => Some(Ok(p@)),
        Some(Err(e)) => Some(Err(e)),
    }
}

/// Reads a capture from a byte source, one record of layout `P` at a time.
#[derive(Debug)]
pub struct PcapReader<T, P> {
    phantom_data: PhantomData<P>,
    pub header: PcapHeader,
    reader: PeekReader<T>,
}

impl<T: ByteSource, P: SomePacket> PcapReader<T, P> {
    /// The global header that was read when the reader was made.
    pub closed spec fn header_model(&self) -> PcapHeader {
        self.header
    }

    /// The wrapped source.
    pub closed spec fn source(&self) -> T {
        self.reader.inner()
    }

    /// The byte that a pull has looked at and not yet decoded, if any. The
    /// wrapped source no longer holds it.
    pub closed spec fn peeked(&self) -> Option<u8> {
        self.reader.peeked()
    }

    /// The bytes that pulls will still decode: the byte looked at, then what
    /// the wrapped source holds.
    pub open spec fn remaining(&self) -> Seq<u8> {
        PeekState { peeked: self.peeked(), rest: self.source().remaining() }.contents()
    }

    /// Whether no read of the wrapped source ever fails.
    pub open spec fn reliable(&self) -> bool {
        self.source().reliable()
    }

    /// Makes a reader from a source that stands at the start of a capture,
    /// reading the global header from it.
    ///
    /// Fails as parsing the header fails: with `UnexpectedEof` on fewer than
    /// 24 bytes, with `BadMagicNumber` on an unknown magic number.
    pub fn new(reader: T) -> (r: ResultParsing<Self>)
        ensures
            match r {
                Err(PcapError::Io(_)) => !reader.reliable(),
                Err(e) => header_of(reader.remaining()) == Err::<PcapHeader, PcapError>(e),
                Ok(pcap) => {
                    &&& header_of(reader.remaining()) == Ok::<PcapHeader, PcapError>(
                        pcap.header_model(),
                    )
                    &&& pcap.peeked() is None
                    &&& pcap.remaining() == reader.remaining().skip(HEADER_LEN as int)
                    &&& pcap.reliable() == reader.reliable()
                },
            },
    {
        let mut reader = reader;
        match PcapHeader::from_reader(&mut reader) {
            Ok(header) => Ok(
                PcapReader {
                    phantom_data: PhantomData,
                    header,
                    reader: PeekReader::new(reader),
                },
            ),
            Err(e) => Err(e),
        }
    }

    /// The global header of the capture.
    pub fn header(&self) -> (h: PcapHeader)
        ensures
            h == self.header_model(),
    {
        self.header
    }

    /// Consumes the reader, returning the wrapped source. A byte that a pull
    /// has looked at and not yet decoded is dropped with the reader.
    pub fn into_reader(self) -> (inner: T)
        ensures
            inner == self.source(),
    {
        self.reader.into_inner()
    }

    /// Gets a reference to the wrapped source.
    pub fn get_ref(&self) -> (inner: &T)
        ensures
            *inner == self.source(),
    {
        self.reader.get_ref()
    }

    /// Gets a mutable reference to the wrapped source.
    ///
    /// Reading from it directly takes bytes away from later pulls. The header
    /// and the byte looked at stay as they are.
    pub fn get_mut(&mut self) -> (inner: &mut T)
        ensures
            *inner == old(self).source(),
            final(self).source() == *final(inner),
            final(self).header_model() == old(self).header_model(),
            final(self).peeked() == old(self).peeked(),
    {
        self.reader.get_mut()
    }

    /// Pulls the next record.
    ///
    /// Returns `None` at the end of the source. Otherwise decodes one record
    /// in the byte order and timestamp resolution of the header. A record cut
    /// off by the end of the source gives `UnexpectedEof` and drains the
    /// source. A failure of the source is passed on; later pulls may be tried.
    pub fn next(&mut self) -> (r: Option<ResultParsing<P>>)
        ensures
            final(self).header_model() == old(self).header_model(),
            final(self).reliable() == old(self).reliable(),
            final(self).remaining().is_suffix_of(old(self).remaining()),
            match r {
                Some(Err(PcapError::Io(_))) => !old(self).reliable(),
                _ => {
                    &&& pull_view(r) == pulled::<P>(old(self).header_model(), old(self).remaining())
                    &&& final(self).remaining() == rest_after_pull::<P>(
                        old(self).header_model(),
                        old(self).remaining(),
                    )
                },
            },
    {
        match self.reader.is_empty() {
            Ok(true) => {
                return None;
            },
            Ok(false) => {},
            Err(e) => {
                return Some(Err(PcapError::Io(e)));
            },
        }
        let ts_resolution = self.header.ts_resolution();
        Some(
            match self.header.endianness() {
                Endianness::Big => P::from_reader::<PeekReader<T>, byteorder::BigEndian>(
                    &mut self.reader,
                    ts_resolution,
                ),
                Endianness::Little => P::from_reader::<PeekReader<T>, byteorder::LittleEndian>(
                    &mut self.reader,
                    ts_resolution,
                ),
            },
        )
    }
}

/// Whether `b` is exactly `n` records of layout `P`, one behind the other,
/// each complete, with nothing left over.
pub open spec fn holds_records<P: SomePacket>(h: PcapHeader, b: Seq<u8>, n: nat) -> bool
    decreases n,
{
    if n == 0 {
        b.len() == 0
    } else {
        &&& b.len() > 0
        &&& P::decoded(h.endianness, h.ts_resolution, b) is Some
        &&& holds_records::<P>(h, rest_after_pull::<P>(h, b), (n - 1) as nat)
    }
}

/// What a source that held `b` and does not fail still holds after `n` pulls.
pub open spec fn rest_after_pulls<P: SomePacket>(h: PcapHeader, b: Seq<u8>, n: nat) -> Seq<u8>
    decreases n,
{
    if n == 0 {
        b
    } else {
        rest_after_pulls::<P>(h, rest_after_pull::<P>(h, b), (n - 1) as nat)
    }
}

/// On a source that holds exactly `n` complete records, each of the first `n`
/// pulls gives a record, and the pull after them gives the end of the stream,
/// not an error.
pub proof fn lemma_end_after_last_record<P: SomePacket>(h: PcapHeader, b: Seq<u8>, n: nat)
    requires
        holds_records::<P>(h, b, n),
    ensures
        forall|i: nat|
            i < n ==> #[trigger] pulled::<P>(h, rest_after_pulls::<P>(h, b, i)) matches Some(Ok(_)),
        pulled::<P>(h, rest_after_pulls::<P>(h, b, n)) is None,
        rest_after_pulls::<P>(h, b, n).len() == 0,
    decreases n,
{
    if n > 0 {
        let rest = rest_after_pull::<P>(h, b);
        lemma_end_after_last_record::<P>(h, rest, (n - 1) as nat);
        assert forall|i: nat| i < n implies #[trigger] pulled::<P>(
            h,
            rest_after_pulls::<P>(h, b, i),
        ) matches Some(Ok(_)) by {
            if i > 0 {
                assert(rest_after_pulls::<P>(h, b, i) == rest_after_pulls::<P>(
                    h,
                    rest,
                    (i - 1) as nat,
                ));
                assert(pulled::<P>(h, rest_after_pulls::<P>(h, rest, (i - 1) as nat)) matches Some(
                    Ok(_),
                ));
            }
        }
    }
}

/// Pulling at the end of the source gives the end of the stream and leaves
/// the source as it is, however often it is done.
pub proof fn lemma_end_is_final<P: SomePacket>(h: PcapHeader, b: Seq<u8>, n: nat)
    requires
        b.len() == 0,
    ensures
        pulled::<P>(h, b) is None,
        rest_after_pulls::<P>(h, b, n) == b,
    decreases n,
{
    if n > 0 {
        lemma_end_is_final::<P>(h, b, (n - 1) as nat);
    }
}

/// The four bytes at the start of a capture written in byte order `e` with
/// timestamps of resolution `res`.
pub open spec fn magic_bytes(e: Endianness, res: TsResolution) -> Seq<u8> {
    match (e, res) {
        (Endianness::Big, TsResolution::MicroSecond) => seq![0xa1u8, 0xb2u8, 0xc3u8, 0xd4u8],
        (Endianness::Big, TsResolution::NanoSecond) => seq![0xa1u8, 0xb2u8, 0x3cu8, 0x4du8],
        (Endianness::Little, TsResolution::MicroSecond) => seq![0xd4u8, 0xc3u8, 0xb2u8, 0xa1u8],
        (Endianness::Little, TsResolution::NanoSecond) => seq![0x4du8, 0x3cu8, 0xb2u8, 0xa1u8],
    }
}

/// The magic number fixes how everything behind it is decoded: a stream of at
/// least 24 bytes that starts with the magic bytes of byte order `e` and
/// resolution `res` has every field of its header decoded in byte order `e`,
/// and every record pulled under that header is decoded in byte order `e`
/// with its sub-second field counted in units of `res`.
pub proof fn lemma_magic_fixes_decoding<P: SomePacket>(
    e: Endianness,
    res: TsResolution,
    b: Seq<u8>,
    records: Seq<u8>,
)
    requires
        b.len() >= HEADER_LEN,
        b.take(4) == magic_bytes(e, res),
    ensures
        header_of(b) == Ok::<PcapHeader, PcapError>(fields_of(e, res, b)),
        fields_of(e, res, b).endianness == e,
        fields_of(e, res, b).ts_resolution == res,
        records.len() > 0 ==> pulled::<P>(fields_of(e, res, b), records) == Some(
            decode_outcome(P::decoded(e, res, records)),
        ),
{
    reveal(u32_be);
    assert(b.take(4)[0] == b[0]);
    assert(b.take(4)[1] == b[1]);
    assert(b.take(4)[2] == b[2]);
    assert(b.take(4)[3] == b[3]);
}

} // verus!
