use pcap_file::errors::IoError;
use pcap_file::errors::PcapError;
use pcap_file::peek_reader::PeekReader;
use pcap_file::source::read_exact;
use pcap_file::source::ByteSource;
use pcap_file::source::MemorySource;

/// Delivers one byte per read.
struct Trickle {
    inner: MemorySource,
}

impl ByteSource for Trickle {
    fn read(&mut self, max: usize) -> Result<Vec<u8>, IoError> {
        self.inner.read(max.min(1))
    }
}

/// Delivers `good` bytes, then fails every read.
struct Broken {
    inner: MemorySource,
    good: usize,
}

impl ByteSource for Broken {
    fn read(&mut self, max: usize) -> Result<Vec<u8>, IoError> {
        if max > 0 && self.good == 0 {
            return Err(IoError { message: String::from("device gone") });
        }
        let bytes = self.inner.read(max.min(self.good))?;
        self.good -= bytes.len();
        Ok(bytes)
    }
}

#[test]
fn memory_source_reads_from_the_front() {
    let mut src = MemorySource::new(vec![1, 2, 3, 4, 5]);
    assert_eq!(src.remaining_len(), 5);
    assert_eq!(src.read(2), Ok(vec![1, 2]));
    assert_eq!(src.remaining_len(), 3);
    assert_eq!(src.read(0), Ok(vec![]));
    assert_eq!(src.remaining_len(), 3);
    assert_eq!(src.read(10), Ok(vec![3, 4, 5]));
    assert_eq!(src.remaining_len(), 0);
    assert_eq!(src.read(10), Ok(vec![]));
}

#[test]
fn read_exact_gives_exactly_what_was_asked() {
    let mut src = MemorySource::new(vec![1, 2, 3, 4, 5]);
    assert_eq!(read_exact(&mut src, 3), Ok(vec![1, 2, 3]));
    assert_eq!(src.remaining_len(), 2);
    assert_eq!(read_exact(&mut src, 0), Ok(vec![]));
    assert_eq!(read_exact(&mut src, 2), Ok(vec![4, 5]));
    assert_eq!(read_exact(&mut src, 0), Ok(vec![]));
}

#[test]
fn read_exact_on_a_short_source_drains_it() {
    let mut src = MemorySource::new(vec![1, 2, 3]);
    assert_eq!(read_exact(&mut src, 4), Err(PcapError::UnexpectedEof));
    assert_eq!(src.remaining_len(), 0);
    assert_eq!(read_exact(&mut src, 1), Err(PcapError::UnexpectedEof));
}

#[test]
fn read_exact_asks_again_after_a_short_read() {
    let mut src = Trickle { inner: MemorySource::new(vec![9, 8, 7, 6]) };
    assert_eq!(read_exact(&mut src, 3), Ok(vec![9, 8, 7]));
    assert_eq!(src.inner.remaining_len(), 1);
    assert_eq!(read_exact(&mut src, 2), Err(PcapError::UnexpectedEof));
}

#[test]
fn read_exact_passes_a_failure_on() {
    let mut src = Broken { inner: MemorySource::new(vec![1, 2, 3, 4]), good: 2 };
    assert_eq!(
        read_exact(&mut src, 4),
        Err(PcapError::Io(IoError { message: String::from("device gone") }))
    );
}

#[test]
fn is_empty_on_an_empty_source() {
    let mut peek = PeekReader::new(MemorySource::new(vec![]));
    assert_eq!(peek.is_empty(), Ok(true));
    assert_eq!(peek.is_empty(), Ok(true));
    assert_eq!(peek.read(4), Ok(vec![]));
}

#[test]
fn is_empty_twice_changes_no_later_read() {
    let mut peeked = PeekReader::new(MemorySource::new(vec![1, 2, 3]));
    assert_eq!(peeked.is_empty(), Ok(false));
    assert_eq!(peeked.is_empty(), Ok(false));
    let mut plain = PeekReader::new(MemorySource::new(vec![1, 2, 3]));
    assert_eq!(read_exact(&mut peeked, 3), read_exact(&mut plain, 3));
    assert_eq!(peeked.is_empty(), Ok(true));
    assert_eq!(plain.is_empty(), Ok(true));
}

#[test]
fn the_byte_looked_at_is_read_first() {
    let mut peek = PeekReader::new(MemorySource::new(vec![7, 8, 9]));
    assert_eq!(peek.is_empty(), Ok(false));
    assert_eq!(peek.get_ref().remaining_len(), 2);
    assert_eq!(peek.read(3), Ok(vec![7]));
    assert_eq!(peek.read(3), Ok(vec![8, 9]));
    assert_eq!(peek.is_empty(), Ok(true));
}

#[test]
fn a_read_of_nothing_keeps_the_byte_looked_at() {
    let mut peek = PeekReader::new(MemorySource::new(vec![7, 8]));
    assert_eq!(peek.is_empty(), Ok(false));
    assert_eq!(peek.read(0), Ok(vec![]));
    assert_eq!(read_exact(&mut peek, 2), Ok(vec![7, 8]));
}

#[test]
fn is_empty_after_the_last_byte() {
    let mut peek = PeekReader::new(MemorySource::new(vec![7]));
    assert_eq!(peek.is_empty(), Ok(false));
    assert_eq!(read_exact(&mut peek, 1), Ok(vec![7]));
    assert_eq!(peek.is_empty(), Ok(true));
}

#[test]
fn is_empty_passes_a_failure_on() {
    let mut peek = PeekReader::new(Broken { inner: MemorySource::new(vec![1]), good: 0 });
    assert_eq!(peek.is_empty(), Err(IoError { message: String::from("device gone") }));
}

#[test]
fn into_inner_drops_the_byte_looked_at() {
    let mut peek = PeekReader::new(MemorySource::new(vec![7, 8, 9]));
    assert_eq!(peek.is_empty(), Ok(false));
    let mut inner = peek.into_inner();
    assert_eq!(inner.read(3), Ok(vec![8, 9]));
}

#[test]
fn get_mut_reaches_the_wrapped_source() {
    let mut peek = PeekReader::new(MemorySource::new(vec![7, 8, 9]));
    assert_eq!(peek.get_mut().read(1), Ok(vec![7]));
    assert_eq!(read_exact(&mut peek, 2), Ok(vec![8, 9]));
}
