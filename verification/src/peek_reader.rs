//! A reader that can look one byte ahead.
//!
//! A capture stream carries no record count, so its end is found by looking
//! for one more byte just before the next record is decoded. The byte that was
//! looked at is kept and handed out first by the next read.

use vstd::prelude::*;
use crate::errors::IoError;
use crate::source::ByteSource;

verus! {

/// Model of a peekable reader: the byte held back, if any, and the bytes that
/// the wrapped source has yet to deliver.
pub struct PeekState {
    pub peeked: Option<u8>,
    pub rest: Seq<u8>,
}

impl PeekState {
    /// All bytes that reads will still see: the held byte, then the rest.
    pub open spec fn contents(self) -> Seq<u8> {
        match self.peeked {
            Some(b) => seq![b] + self.rest,
            None => self.rest,
        }
    }

    /// The state after a look ahead that did not fail: with no byte held and a
    /// source that is not exhausted, the source's first byte moves into the
    /// slot. Otherwise nothing changes.
    pub open spec fn peek(self) -> PeekState {
        if self.peeked is None && self.rest.len() > 0 {
            PeekState { peeked: Some(self.rest[0]), rest: self.rest.skip(1) }
        } else {
            self
        }
    }
}

/// Looking ahead does not change what later reads see.
pub proof fn lemma_peek_keeps_contents(s: PeekState)
    ensures
        s.peek().contents() == s.contents(),
{
    if s.peeked is None && s.rest.len() > 0 {
        assert(seq![s.rest[0]] + s.rest.skip(1) =~= s.rest);
    }
}

/// Looking ahead twice in a row is the same as looking ahead once.
pub proof fn lemma_peek_idempotent(s: PeekState)
    ensures
        s.peek().peek() == s.peek(),
        s.peek().peek().contents() == s.contents(),
{
    lemma_peek_keeps_contents(s);
}

/// Looking ahead at an exhausted reader changes nothing.
pub proof fn lemma_peek_at_end(s: PeekState)
    requires
        s.contents().len() == 0,
    ensures
        s.peek() == s,
{
}

/// Wraps a byte source and adds a one-byte look ahead.
#[derive(Debug)]
pub struct PeekReader<T> {
    inner: T,
    peeked: Option<u8>,
}

impl<T: ByteSource> PeekReader<T> {
    /// The byte held back by an earlier look ahead, if any.
    pub closed spec fn peeked(&self) -> Option<u8> {
        self.peeked
    }

    /// The wrapped source.
    pub closed spec fn inner(&self) -> T {
        self.inner
    }

    /// The model of this reader.
    pub open spec fn state(&self) -> PeekState {
        PeekState { peeked: self.peeked(), rest: self.inner().remaining() }
    }

    /// Wraps `inner`; no byte is held back yet.
    pub fn new(inner: T) -> (r: Self)
        ensures
            r.inner() == inner,
            r.peeked() is None,
    {
        PeekReader { inner, peeked: None }
    }

    /// Gives the wrapped source back. A byte held back by a look ahead is
    /// dropped.
    pub fn into_inner(self) -> (inner: T)
        ensures
            inner == self.inner(),
    {
        self.inner
    }

    /// The wrapped source.
    pub fn get_ref(&self) -> (inner: &T)
        ensures
            *inner == self.inner(),
    {
        &self.inner
    }

    /// The wrapped source, for changing it in place. The held byte stays.
    pub fn get_mut(&mut self) -> (inner: &mut T)
        ensures
            *inner == old(self).inner(),
            final(self).inner() == *final(inner),
            final(self).peeked() == old(self).peeked(),
    {
        &mut self.inner
    }

    /// Tells whether no byte is left, without losing any byte.
    ///
    /// Reads one byte from the wrapped source unless one is already held. The
    /// wrapped source is not touched while a byte is held.
    pub fn is_empty(&mut self) -> (r: Result<bool, IoError>)
        ensures
            final(self).remaining() == old(self).remaining(),
            final(self).reliable() == old(self).reliable(),
            old(self).peeked() is Some ==> *final(self) == *old(self),
            match r {
                Ok(empty) => {
                    &&& empty == (old(self).remaining().len() == 0)
                    &&& final(self).state() == old(self).state().peek()
                },
                Err(_) => {
                    &&& !old(self).reliable()
                    &&& final(self).state() == old(self).state()
                },
            },
    {
        if self.peeked.is_some() {
            return Ok(false);
        }
        match self.inner.read(1) {
            Ok(bytes) => {
                if bytes.len() == 0 {
                    Ok(true)
                } else {
                    self.peeked = Some(bytes[0]);
                    proof {
                        lemma_peek_keeps_contents(old(self).state());
                    }
                    Ok(false)
                }
            },
            Err(e) => Err(e),
        }
    }
}

impl<T: ByteSource> ByteSource for PeekReader<T> {
    open spec fn remaining(&self) -> Seq<u8> {
        self.state().contents()
    }

    open spec fn reliable(&self) -> bool {
        self.inner().reliable()
    }

    /// Hands out the held byte first, alone; with no byte held, reads from the
    /// wrapped source.
    fn read(&mut self, max: usize) -> (r: Result<Vec<u8>, IoError>) {
        if max == 0 {
            return Ok(Vec::new());
        }
        match self.peeked {
            Some(b) => {
                self.peeked = None;
                let mut out: Vec<u8> = Vec::new();
                out.push(b);
                assert(out@ =~= old(self).remaining().take(1));
                assert(self.remaining() =~= old(self).remaining().skip(1));
                Ok(out)
            },
            None => self.inner.read(max),
        }
    }
}

} // verus!
