//! Records with virtual-switch metadata.
//!
//! The extended layout is the standard one with three further 32-bit fields
//! between the record header and the payload: the index of the interface
//! that saw the packet, the index of the buffer that held it, and a word of
//! flags.

use vstd::prelude::*;
use vstd::slice::slice_subrange;
use crate::byte_order::u32_value;
use crate::byte_order::Endian;
use crate::byte_order::Endianness;
use crate::errors::PcapError;
use crate::errors::ResultParsing;
use crate::pcap::header::TsResolution;
use crate::pcap::packet::lemma_record_header_reads_prefix;
use crate::pcap::packet::lemma_suffix_chain;
use crate::pcap::packet::record_header_of;
use crate::pcap::packet::PacketHeader;
use crate::pcap::packet::SomePacket;
use crate::pcap::packet::RECORD_HEADER_LEN;
use crate::source::read_exact;
use crate::source::ByteSource;

verus! {

/// Length in bytes of the metadata fields.
pub const VPP_META_LEN: usize = 12;

/// Length in bytes of everything that precedes the payload of an extended
/// record.
pub const VPP_FIXED_LEN: usize = 28;

/// The metadata fields of an extended record.
#[derive(Clone, Copy, Debug, PartialEq, Eq, Structural)]
pub struct VppMeta {
    /// Index of the interface that saw the packet.
    pub interface_index: u32,
    /// Index of the buffer that held the packet.
    pub buffer_index: u32,
    pub flags: u32,
}

/// The metadata encoded by the first 12 bytes of `b` in byte order `e`.
pub open spec fn vpp_meta_of(e: Endianness, b: Seq<u8>) -> VppMeta {
    VppMeta {
        interface_index: u32_value(e, b.subrange(0, 4)) as u32,
        buffer_index: u32_value(e, b.subrange(4, 8)) as u32,
        flags: u32_value(e, b.subrange(8, 12)) as u32,
    }
}

impl VppMeta {
    /// Decodes the metadata fields from the first 12 bytes of `bytes`.
    pub fn parse<B: Endian>(bytes: &[u8]) -> (m: VppMeta)
        requires
            bytes@.len() >= VPP_META_LEN,
        ensures
            m == vpp_meta_of(B::endianness(), bytes@),
    {
        VppMeta {
            interface_index: B::read_u32(slice_subrange(bytes, 0, 4)),
            buffer_index: B::read_u32(slice_subrange(bytes, 4, 8)),
            flags: B::read_u32(slice_subrange(bytes, 8, 12)),
        }
    }
}

/// An extended record: header, metadata and payload.
#[derive(Debug, PartialEq, Eq)]
pub struct VppPacket {
    pub header: PacketHeader,
    pub meta: VppMeta,
    /// The captured bytes, `header.captured_len` of them.
    pub data: Vec<u8>,
}

/// Model of an extended record.
pub struct VppPacketView {
    pub header: PacketHeader,
    pub meta: VppMeta,
    pub data: Seq<u8>,
}

impl View for VppPacket {
    type V = VppPacketView;

    open spec fn view(&self) -> VppPacketView {
        VppPacketView { header: self.header, meta: self.meta, data: self.data@ }
    }
}

impl VppPacket {
    /// The payload is as long as the header says.
    pub open spec fn wf(&self) -> bool {
        self.data@.len() == self.header.captured_len
    }
}

impl SomePacket for VppPacket {
    open spec fn decoded(e: Endianness, res: TsResolution, b: Seq<u8>) -> Option<
        (VppPacketView, nat),
    > {
        if b.len() < VPP_FIXED_LEN {
            None
        } else {
            let header = record_header_of(e, res, b);
            let meta = vpp_meta_of(e, b.subrange(RECORD_HEADER_LEN as int, VPP_FIXED_LEN as int));
            let end = VPP_FIXED_LEN + header.captured_len;
            if b.len() < end {
                None
            } else {
                Some(
                    (
                        VppPacketView { header, meta, data: b.subrange(VPP_FIXED_LEN as int, end) },
                        end as nat,
                    ),
                )
            }
        }
    }

    fn from_reader<R: ByteSource, B: Endian>(
        reader: &mut R,
        ts_resolution: TsResolution,
    ) -> (r: ResultParsing<Self>)
        ensures
            r matches Ok(p) ==> p.wf(),
    {
        let ghost b = old(reader).remaining();
        let fixed = match read_exact(reader, RECORD_HEADER_LEN) {
            Ok(bytes) => bytes,
            Err(e) => {
                return Err(e);
            },
        };
        let header = PacketHeader::parse::<B>(fixed.as_slice(), ts_resolution);
        proof {
            lemma_record_header_reads_prefix(B::endianness(), ts_resolution, b);
        }
        let ghost after_header = reader.remaining();
        let extra = match read_exact(reader, VPP_META_LEN) {
            Ok(bytes) => bytes,
            Err(e) => {
                proof {
                    lemma_suffix_chain(reader.remaining(), after_header, b);
                }
                return Err(e);
            },
        };
        let meta = VppMeta::parse::<B>(extra.as_slice());
        proof {
            assert(extra@ =~= b.subrange(RECORD_HEADER_LEN as int, VPP_FIXED_LEN as int));
            assert(reader.remaining() =~= b.skip(VPP_FIXED_LEN as int));
            lemma_suffix_chain(reader.remaining(), after_header, b);
        }
        let ghost after_meta = reader.remaining();
        let data = match read_exact(reader, header.captured_len as usize) {
            Ok(bytes) => bytes,
            Err(e) => {
                proof {
                    lemma_suffix_chain(reader.remaining(), after_meta, b);
                }
                return Err(e);
            },
        };
        proof {
            let end = VPP_FIXED_LEN + header.captured_len;
            assert(data@ =~= b.subrange(VPP_FIXED_LEN as int, end));
            assert(reader.remaining() =~= b.skip(end));
            lemma_suffix_chain(reader.remaining(), after_meta, b);
        }
        Ok(VppPacket { header, meta, data })
    }
}

/// The payload of a decoded extended record is exactly as long as its
/// captured length field says, and the record occupies its header, its
/// metadata and its payload.
pub proof fn lemma_vpp_packet_payload_len(e: Endianness, res: TsResolution, b: Seq<u8>)
    requires
        VppPacket::decoded(e, res, b) is Some,
    ensures
        ({
            let (v, k) = VppPacket::decoded(e, res, b)->Some_0;
            &&& v.data.len() == v.header.captured_len
            &&& k == VPP_FIXED_LEN + v.header.captured_len
            &&& k <= b.len()
        }),
{
}

/// An extended record starts with the header of the standard record that the
/// same bytes would start.
pub proof fn lemma_vpp_packet_extends_packet(e: Endianness, res: TsResolution, b: Seq<u8>)
    requires
        VppPacket::decoded(e, res, b) is Some,
    ensures
        VppPacket::decoded(e, res, b)->Some_0.0.header == record_header_of(e, res, b),
{
}

} // verus!
