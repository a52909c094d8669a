//! Reading of packet-capture files in the classic libpcap layout.
//!
//! A capture file is a 24-byte global header followed by records. The header's
//! magic number fixes the byte order and the timestamp unit of everything that
//! follows. Every decoding function here carries a contract over the bytes that
//! its source has yet to deliver.

pub mod byte_order;
pub mod errors;
pub mod source;
pub mod peek_reader;
pub mod pcap;

pub use byte_order::Endianness;
pub use errors::IoError;
pub use errors::PcapError;
pub use errors::ResultParsing;
pub use peek_reader::PeekReader;
pub use source::ByteSource;
pub use source::MemorySource;
