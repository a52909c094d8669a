//! The classic capture format: global header, records, and the reader that
//! pulls records from a byte source.

pub mod header;
pub mod packet;
pub mod vpp_packet;
pub mod reader;

pub use self::header::PcapHeader;
pub use self::header::TsResolution;
pub use self::packet::Packet;
pub use self::packet::PacketHeader;
pub use self::packet::SomePacket;
pub use self::reader::PcapReader;
pub use self::vpp_packet::VppMeta;
pub use self::vpp_packet::VppPacket;
