//! Errors reported while reading a capture.

use vstd::prelude::*;

verus! {

/// A failure reported by a byte source, with the source's own description.
#[derive(Debug, PartialEq, Eq)]
pub struct IoError {
    pub message: String,
}

/// Why a header or a record could not be read.
#[derive(Debug, PartialEq, Eq)]
pub enum PcapError {
    /// The source failed to produce the bytes asked for.
    Io(IoError),
    /// The first four bytes of the stream are none of the known magic numbers,
    /// in either byte order.
    BadMagicNumber,
    /// The source ran dry before a header or a record was complete.
    UnexpectedEof,
}

/// Result of a parsing step.
pub type ResultParsing<T> = Result<T, PcapError>;

} // verus!
