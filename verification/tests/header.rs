use pcap_file::byte_order::Endianness;
use pcap_file::errors::PcapError;
use pcap_file::pcap::header::PcapHeader;
use pcap_file::pcap::header::TsResolution;
use pcap_file::pcap::header::HEADER_LEN;
use pcap_file::pcap::header::MAGIC_MICROS;
use pcap_file::pcap::header::MAGIC_MICROS_SWAPPED;
use pcap_file::pcap::header::MAGIC_NANOS;
use pcap_file::pcap::header::MAGIC_NANOS_SWAPPED;
use pcap_file::source::MemorySource;

const LE_MICROS: [u8; 24] = [
    0xd4, 0xc3, 0xb2, 0xa1, 0x02, 0x00, 0x04, 0x00, 0xf0, 0xf1, 0xff, 0xff, 0x06, 0x00, 0x00, 0x00,
    0xff, 0xff, 0x00, 0x00, 0x01, 0x00, 0x00, 0x00,
];

const BE_MICROS: [u8; 24] = [
    0xa1, 0xb2, 0xc3, 0xd4, 0x00, 0x02, 0x00, 0x04, 0xff, 0xff, 0xf1, 0xf0, 0x00, 0x00, 0x00, 0x06,
    0x00, 0x00, 0xff, 0xff, 0x00, 0x00, 0x00, 0x01,
];

const LE_NANOS: [u8; 24] = [
    0x4d, 0x3c, 0xb2, 0xa1, 0x02, 0x00, 0x04, 0x00, 0xf0, 0xf1, 0xff, 0xff, 0x06, 0x00, 0x00, 0x00,
    0xff, 0xff, 0x00, 0x00, 0x01, 0x00, 0x00, 0x00,
];

const BE_NANOS: [u8; 24] = [
    0xa1, 0xb2, 0x3c, 0x4d, 0x00, 0x02, 0x00, 0x04, 0xff, 0xff, 0xf1, 0xf0, 0x00, 0x00, 0x00, 0x06,
    0x00, 0x00, 0xff, 0xff, 0x00, 0x00, 0x00, 0x01,
];

fn expected(endianness: Endianness, ts_resolution: TsResolution) -> PcapHeader {
    PcapHeader {
        endianness,
        ts_resolution,
        version_major: 2,
        version_minor: 4,
        ts_correction: -3600,
        ts_accuracy: 6,
        snaplen: 65535,
        datalink: 1,
    }
}

#[test]
fn little_endian_micros_header() {
    assert_eq!(
        PcapHeader::parse(&LE_MICROS),
        Ok(expected(Endianness::Little, TsResolution::MicroSecond))
    );
}

#[test]
fn big_endian_micros_header() {
    assert_eq!(
        PcapHeader::parse(&BE_MICROS),
        Ok(expected(Endianness::Big, TsResolution::MicroSecond))
    );
}

#[test]
fn little_endian_nanos_header() {
    assert_eq!(
        PcapHeader::parse(&LE_NANOS),
        Ok(expected(Endianness::Little, TsResolution::NanoSecond))
    );
}

#[test]
fn big_endian_nanos_header() {
    assert_eq!(
        PcapHeader::parse(&BE_NANOS),
        Ok(expected(Endianness::Big, TsResolution::NanoSecond))
    );
}

#[test]
fn header_getters() {
    let h = expected(Endianness::Little, TsResolution::NanoSecond);
    assert_eq!(h.endianness(), Endianness::Little);
    assert_eq!(h.ts_resolution(), TsResolution::NanoSecond);
    assert_eq!(h.magic_number(), 0xa1b2_3c4d);
    assert_eq!(expected(Endianness::Big, TsResolution::MicroSecond).magic_number(), 0xa1b2_c3d4);
}

#[test]
fn magic_constants() {
    assert_eq!(MAGIC_MICROS, 0xa1b2_c3d4);
    assert_eq!(MAGIC_NANOS, 0xa1b2_3c4d);
    assert_eq!(MAGIC_MICROS_SWAPPED, MAGIC_MICROS.swap_bytes());
    assert_eq!(MAGIC_NANOS_SWAPPED, MAGIC_NANOS.swap_bytes());
    assert_eq!(HEADER_LEN, 24);
}

#[test]
fn parse_then_encode_gives_the_same_bytes() {
    for bytes in [LE_MICROS, BE_MICROS, LE_NANOS, BE_NANOS] {
        let header = PcapHeader::parse(&bytes).unwrap();
        assert_eq!(header.to_bytes(), bytes.to_vec());
    }
}

#[test]
fn encode_then_parse_gives_the_same_header() {
    for endianness in [Endianness::Big, Endianness::Little] {
        for ts_resolution in [TsResolution::MicroSecond, TsResolution::NanoSecond] {
            let header = PcapHeader {
                endianness,
                ts_resolution,
                version_major: 0xabcd,
                version_minor: 0x0102,
                ts_correction: i32::MIN,
                ts_accuracy: u32::MAX,
                snaplen: 0x0102_0304,
                datalink: 0x8000_0001,
            };
            let bytes = header.to_bytes();
            assert_eq!(bytes.len(), 24);
            assert_eq!(PcapHeader::parse(&bytes), Ok(header));
        }
    }
}

#[test]
fn encoded_big_endian_header_byte_for_byte() {
    let header = PcapHeader {
        endianness: Endianness::Big,
        ts_resolution: TsResolution::MicroSecond,
        version_major: 0x0102,
        version_minor: 0x0304,
        ts_correction: 0x0506_0708,
        ts_accuracy: 0x090a_0b0c,
        snaplen: 0x0d0e_0f10,
        datalink: 0x1112_1314,
    };
    assert_eq!(
        header.to_bytes(),
        vec![
            0xa1, 0xb2, 0xc3, 0xd4, 0x01, 0x02, 0x03, 0x04, 0x05, 0x06, 0x07, 0x08, 0x09, 0x0a,
            0x0b, 0x0c, 0x0d, 0x0e, 0x0f, 0x10, 0x11, 0x12, 0x13, 0x14,
        ]
    );
}

#[test]
fn encoded_little_endian_header_byte_for_byte() {
    let header = PcapHeader {
        endianness: Endianness::Little,
        ts_resolution: TsResolution::NanoSecond,
        version_major: 0x0102,
        version_minor: 0x0304,
        ts_correction: 0x0506_0708,
        ts_accuracy: 0x090a_0b0c,
        snaplen: 0x0d0e_0f10,
        datalink: 0x1112_1314,
    };
    assert_eq!(
        header.to_bytes(),
        vec![
            0x4d, 0x3c, 0xb2, 0xa1, 0x02, 0x01, 0x04, 0x03, 0x08, 0x07, 0x06, 0x05, 0x0c, 0x0b,
            0x0a, 0x09, 0x10, 0x0f, 0x0e, 0x0d, 0x14, 0x13, 0x12, 0x11,
        ]
    );
}

#[test]
fn zero_magic_is_rejected() {
    let mut bytes = LE_MICROS;
    bytes[0] = 0;
    bytes[1] = 0;
    bytes[2] = 0;
    bytes[3] = 0;
    assert_eq!(PcapHeader::parse(&bytes), Err(PcapError::BadMagicNumber));
}

#[test]
fn near_miss_magic_is_rejected() {
    let mut bytes = LE_MICROS;
    bytes[3] = 0xa2;
    assert_eq!(PcapHeader::parse(&bytes), Err(PcapError::BadMagicNumber));
    let mixed = [0xd4, 0xc3, 0x3c, 0x4d];
    let mut bytes = BE_MICROS;
    bytes[..4].copy_from_slice(&mixed);
    assert_eq!(PcapHeader::parse(&bytes), Err(PcapError::BadMagicNumber));
}

#[test]
fn short_header_is_an_unexpected_end() {
    assert_eq!(PcapHeader::parse(&[]), Err(PcapError::UnexpectedEof));
    assert_eq!(PcapHeader::parse(&LE_MICROS[..23]), Err(PcapError::UnexpectedEof));
    assert_eq!(PcapHeader::parse(&[0, 0, 0, 0]), Err(PcapError::UnexpectedEof));
}

#[test]
fn version_numbers_are_not_checked() {
    let mut bytes = BE_MICROS;
    bytes[4] = 0xff;
    bytes[5] = 0xfe;
    bytes[6] = 0x12;
    bytes[7] = 0x34;
    let header = PcapHeader::parse(&bytes).unwrap();
    assert_eq!(header.version_major, 0xfffe);
    assert_eq!(header.version_minor, 0x1234);
}

#[test]
fn parse_ignores_what_follows_the_header() {
    let mut bytes = LE_MICROS.to_vec();
    bytes.extend_from_slice(&[1, 2, 3]);
    assert_eq!(
        PcapHeader::parse(&bytes),
        Ok(expected(Endianness::Little, TsResolution::MicroSecond))
    );
}

#[test]
fn from_reader_takes_exactly_the_header() {
    let mut bytes = BE_NANOS.to_vec();
    bytes.extend_from_slice(&[1, 2, 3]);
    let mut src = MemorySource::new(bytes);
    assert_eq!(
        PcapHeader::from_reader(&mut src),
        Ok(expected(Endianness::Big, TsResolution::NanoSecond))
    );
    assert_eq!(src.remaining_len(), 3);
}

#[test]
fn from_reader_takes_the_header_of_a_bad_magic_too() {
    let mut bytes = vec![0u8; 24];
    bytes.extend_from_slice(&[1, 2, 3]);
    let mut src = MemorySource::new(bytes);
    assert_eq!(PcapHeader::from_reader(&mut src), Err(PcapError::BadMagicNumber));
    assert_eq!(src.remaining_len(), 3);
}

#[test]
fn from_reader_on_a_short_source() {
    let mut src = MemorySource::new(LE_MICROS[..10].to_vec());
    assert_eq!(PcapHeader::from_reader(&mut src), Err(PcapError::UnexpectedEof));
    assert_eq!(src.remaining_len(), 0);
}
