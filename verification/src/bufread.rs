//! A buffered source: a window of already-fetched bytes over a plain source,
//! so that the pull pump can hand the engine an input slice and then consume
//! exactly what the engine took.

use vstd::prelude::*;
use vstd::slice::slice_subrange;

use crate::error::Error;
use crate::stream::{BufSource, Source};

verus! {

/// Default size of the window's storage.
pub const DEFAULT_BUF_SIZE: usize = 32768;

/// A window of unread bytes over a wrapped source. Bytes before the cursor
/// were consumed by the engine and are never re-read.
pub struct BufReader<R: Source> {
    inner: R,
    buf: Vec<u8>,
    pos: usize,
    cap: usize,
    gtaken: Ghost<Seq<u8>>,
    hbase: Ghost<Seq<u8>>,
}

impl<R: Source> BufReader<R> {
    /// The wrapped source.
    pub closed spec fn source(&self) -> R {
        self.inner
    }

    /// Wrap a source, with storage of the default size.
    pub fn new(inner: R) -> (r: BufReader<R>)
        requires
            inner.inv(),
        ensures
            r.inv(),
            r.source() == inner,
            r.avail() == Seq::<u8>::empty(),
            r.taken() == Seq::<u8>::empty(),
    {
        let storage: Vec<u8> = vec![0u8; DEFAULT_BUF_SIZE];
        let r = BufReader {
            hbase: Ghost(inner.handed()),
            inner,
            buf: storage,
            pos: 0,
            cap: 0,
            gtaken: Ghost(Seq::empty()),
        };
        proof {
            assert(r.hbase@ + r.gtaken@ + r.avail() =~= r.inner.handed());
        }
        r
    }

    /// Wrap a source, using the given vector as the window's storage; its
    /// length stays what it is and is never grown.
    pub fn with_buf(storage: Vec<u8>, inner: R) -> (r: BufReader<R>)
        requires
            inner.inv(),
        ensures
            r.inv(),
            r.source() == inner,
            r.avail() == Seq::<u8>::empty(),
            r.taken() == Seq::<u8>::empty(),
    {
        let r = BufReader {
            hbase: Ghost(inner.handed()),
            inner,
            buf: storage,
            pos: 0,
            cap: 0,
            gtaken: Ghost(Seq::empty()),
        };
        proof {
            assert(r.hbase@ + r.gtaken@ + r.avail() =~= r.inner.handed());
        }
        r
    }

    /// Replace the wrapped source, returning the old one. Buffered bytes of
    /// the old stream are discarded on purpose: they belong to the previous
    /// logical session.
    pub fn reset(&mut self, inner: R) -> (r: R)
        requires
            old(self).inv(),
            inner.inv(),
        ensures
            final(self).inv(),
            r == old(self).source(),
            final(self).source() == inner,
            final(self).avail() == Seq::<u8>::empty(),
            final(self).taken() == Seq::<u8>::empty(),
    {
        self.pos = 0;
        self.cap = 0;
        self.gtaken = Ghost(Seq::empty());
        let mut r = inner;
        core::mem::swap(&mut self.inner, &mut r);
        self.hbase = Ghost(self.inner.handed());
        proof {
            assert(self.hbase@ + self.gtaken@ + self.avail() =~= self.inner.handed());
        }
        r
    }

    /// Borrow the wrapped source.
    pub fn get_ref(&self) -> (r: &R)
        ensures
            *r == self.source(),
    {
        &self.inner
    }

    /// Borrow the wrapped source mutably.
    pub fn get_mut(&mut self) -> (r: &mut R)
        ensures
            *r == old(self).source(),
            final(self).source() == *final(r),
            final(self).avail() == old(self).avail(),
            final(self).taken() == old(self).taken(),
    {
        &mut self.inner
    }

    /// Consume the wrapper, returning the wrapped source.
    pub fn into_inner(self) -> (r: R)
        ensures
            r == self.source(),
    {
        self.inner
    }
}

impl<R: Source> BufSource for BufReader<R> {
    closed spec fn inv(&self) -> bool {
        self.inner.inv() && self.pos <= self.cap && self.cap <= self.buf@.len() && self.hbase@
            + self.gtaken@ + self.avail() == self.inner.handed()
    }

    closed spec fn avail(&self) -> Seq<u8> {
        self.buf@.subrange(self.pos as int, self.cap as int)
    }

    closed spec fn taken(&self) -> Seq<u8> {
        self.gtaken@
    }

    closed spec fn at_end(&self) -> bool {
        self.inner.at_end() || self.buf@.len() == 0
    }

    fn fill(&mut self) -> (r: Result<usize, Error>) {
        if self.pos < self.cap {
            return Ok(self.cap - self.pos);
        }
        self.pos = 0;
        self.cap = 0;
        proof {
            assert(self.avail() =~= Seq::<u8>::empty());
            assert(self.hbase@ + self.gtaken@ + Seq::<u8>::empty() =~= self.hbase@
                + self.gtaken@);
        }
        let n = match self.inner.read(&mut self.buf) {
            Ok(n) => n,
            Err(e) => { return Err(e) },
        };
        self.cap = n;
        proof {
            assert(self.avail() =~= self.buf@.take(n as int));
            assert(self.hbase@ + self.gtaken@ + self.avail() =~= (self.hbase@ + self.gtaken@)
                + self.buf@.take(n as int));
        }
        Ok(n)
    }

    fn window(&self) -> (r: &[u8]) {
        slice_subrange(self.buf.as_slice(), self.pos, self.cap)
    }

    fn consume(&mut self, amt: usize) {
        self.gtaken = Ghost(self.gtaken@ + self.avail().take(amt as int));
        self.pos = self.pos + amt;
        proof {
            assert(self.buf@.subrange(self.pos as int, self.cap as int)
                =~= old(self).avail().skip(amt as int));
            assert(old(self).avail() =~= old(self).avail().take(amt as int)
                + old(self).avail().skip(amt as int));
            assert(self.hbase@ + self.gtaken@ + self.avail() =~= old(self).hbase@
                + old(self).gtaken@ + old(self).avail());
        }
    }
}

} // verus!
