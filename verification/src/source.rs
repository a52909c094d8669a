//! Sequential byte sources.

use vstd::prelude::*;
use vstd::slice::slice_subrange;
use vstd::slice::slice_to_vec;
use crate::errors::IoError;
use crate::errors::PcapError;
use crate::errors::ResultParsing;

verus! {

/// A sequential source of bytes.
///
/// The model of a source is the sequence of bytes that it has yet to deliver.
/// Reading takes bytes off the front of that sequence.
pub trait ByteSource {
    /// The bytes that the source has yet to deliver, in order. A source that
    /// does not say what it holds is taken to hold nothing.
    open spec fn remaining(&self) -> Seq<u8> {
        Seq::empty()
    }

    /// Whether no read of this source ever fails. A source that does not say
    /// so is taken to fail at will.
    open spec fn reliable(&self) -> bool {
        false
    }

    /// Takes at most `max` bytes off the front of the source.
    ///
    /// An empty result means that `max` is zero or that the source is
    /// exhausted. A failed read consumes nothing.
    fn read(&mut self, max: usize) -> (r: Result<Vec<u8>, IoError>)
        ensures
            final(self).reliable() == old(self).reliable(),
            match r {
                Ok(bytes) => {
                    &&& bytes@.len() <= max
                    &&& bytes@.len() <= old(self).remaining().len()
                    &&& bytes@ == old(self).remaining().take(bytes@.len() as int)
                    &&& final(self).remaining() == old(self).remaining().skip(bytes@.len() as int)
                    &&& (bytes@.len() == 0 <==> (max == 0 || old(self).remaining().len() == 0))
                },
                Err(_) => {
                    &&& !old(self).reliable()
                    &&& final(self).remaining() == old(self).remaining()
                },
            },
    ;
}

/// What `read_exact` returns for a source that holds `bytes` and does not fail.
pub open spec fn exact_outcome(bytes: Seq<u8>, n: nat) -> Result<Seq<u8>, PcapError> {
    if n <= bytes.len() {
        Ok(bytes.take(n as int))
    } else {
        Err(PcapError::UnexpectedEof)
    }
}

/// What a source that held `bytes` still holds after `read_exact`, if it did
/// not fail: a short source is drained.
pub open spec fn exact_rest(bytes: Seq<u8>, n: nat) -> Seq<u8> {
    if n <= bytes.len() {
        bytes.skip(n as int)
    } else {
        Seq::empty()
    }
}

/// Reads exactly `n` bytes, asking the source again after each short read.
///
/// Fails with `UnexpectedEof` when the source holds fewer than `n` bytes; the
/// source is then drained. A failure of the source itself is passed on, and
/// what was read before it is lost.
pub fn read_exact<R: ByteSource>(reader: &mut R, n: usize) -> (r: ResultParsing<Vec<u8>>)
    ensures
        final(reader).reliable() == old(reader).reliable(),
        final(reader).remaining().is_suffix_of(old(reader).remaining()),
        match r {
            Ok(bytes) => {
                &&& exact_outcome(old(reader).remaining(), n as nat) == Ok::<Seq<u8>, PcapError>(bytes@)
                &&& final(reader).remaining() == exact_rest(old(reader).remaining(), n as nat)
            },
            Err(PcapError::UnexpectedEof) => {
                &&& exact_outcome(old(reader).remaining(), n as nat) is Err
                &&& final(reader).remaining() == exact_rest(old(reader).remaining(), n as nat)
            },
            Err(PcapError::Io(_)) => !old(reader).reliable(),
            Err(PcapError::BadMagicNumber) => false,
        },
{
    let mut out: Vec<u8> = Vec::new();
    while out.len() < n
        invariant
            out@.len() <= n,
            out@.len() <= old(reader).remaining().len(),
            out@ == old(reader).remaining().take(out@.len() as int),
            reader.remaining() == old(reader).remaining().skip(out@.len() as int),
            reader.reliable() == old(reader).reliable(),
        decreases n - out@.len(),
    {
        match reader.read(n - out.len()) {
            Ok(mut chunk) => {
                if chunk.len() == 0 {
                    proof {
                        assert(reader.remaining() =~= Seq::<u8>::empty());
                        lemma_suffix_of_skip(old(reader).remaining(), out@.len() as int);
                    }
                    return Err(PcapError::UnexpectedEof);
                }
                out.append(&mut chunk);
                assert(out@ =~= old(reader).remaining().take(out@.len() as int));
                assert(reader.remaining() =~= old(reader).remaining().skip(out@.len() as int));
            },
            Err(e) => {
                proof {
                    lemma_suffix_of_skip(old(reader).remaining(), out@.len() as int);
                }
                return Err(PcapError::Io(e));
            },
        }
    }
    proof {
        lemma_suffix_of_skip(old(reader).remaining(), n as int);
    }
    Ok(out)
}

/// Dropping a prefix of a sequence leaves a suffix of it.
pub proof fn lemma_suffix_of_skip(s: Seq<u8>, k: int)
    requires
        0 <= k <= s.len(),
    ensures
        s.skip(k).is_suffix_of(s),
{
    assert(s.skip(k) =~= s.skip(s.len() - s.skip(k).len()));
}

/// A byte source over a buffer in memory. Its reads never fail.
#[derive(Debug)]
pub struct MemorySource {
    data: Vec<u8>,
    pos: usize,
}

impl MemorySource {
    #[verifier::type_invariant]
    spec fn inv(self) -> bool {
        self.pos <= self.data@.len()
    }

    /// A source that delivers `data` from its first byte on.
    pub fn new(data: Vec<u8>) -> (s: Self)
        ensures
            s.remaining() == data@,
            s.reliable(),
    {
        let s = MemorySource { data, pos: 0 };
        assert(s.data@.skip(0) =~= s.data@);
        s
    }

    /// Number of bytes that have not been read yet.
    pub fn remaining_len(&self) -> (n: usize)
        ensures
            n == self.remaining().len(),
    {
        proof {
            use_type_invariant(self);
        }
        self.data.len() - self.pos
    }
}

impl ByteSource for MemorySource {
    closed spec fn remaining(&self) -> Seq<u8> {
        self.data@.skip(self.pos as int)
    }

    open spec fn reliable(&self) -> bool {
        true
    }

    fn read(&mut self, max: usize) -> (r: Result<Vec<u8>, IoError>) {
        proof {
            use_type_invariant(&*self);
        }
        let left: usize = self.data.len() - self.pos;
        let n: usize = if max < left { max } else { left };
        let chunk = slice_to_vec(slice_subrange(self.data.as_slice(), self.pos, self.pos + n));
        self.pos = self.pos + n;
        assert(chunk@ =~= old(self).remaining().take(n as int));
        assert(self.remaining() =~= old(self).remaining().skip(n as int));
        Ok(chunk)
    }
}

} // verus!
