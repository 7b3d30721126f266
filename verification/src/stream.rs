use vstd::pervasive::VecAdditionalExecFns;
use vstd::prelude::*;
use vstd::slice::slice_subrange;

use crate::error::Error;

verus! {

/// A blocking byte sink in the style of a writable stream.
///
/// `write` may accept fewer bytes than offered (a partial write); callers that
/// need everything delivered must retry. When `write` fails, no bytes were
/// accepted. `flush` pushes internally buffered bytes onward and accepts none.
pub trait Sink: Sized {
    /// The bytes this sink has accepted so far, oldest first.
    spec fn data(&self) -> Seq<u8>;

    /// Well-formedness of the sink.
    spec fn inv(&self) -> bool;

    /// Offer `buf`; the sink accepts some prefix of it.
    fn write(&mut self, buf: &[u8]) -> (r: Result<usize, Error>)
        requires
            old(self).inv(),
        ensures
            final(self).inv(),
            match r {
                Ok(n) => n <= buf@.len() && final(self).data() == old(self).data()
                    + buf@.take(n as int),
                Err(_) => final(self).data() == old(self).data(),
            },
    ;

    /// Push internally buffered bytes to the true destination.
    fn flush(&mut self) -> (r: Result<(), Error>)
        requires
            old(self).inv(),
        ensures
            final(self).inv(),
            final(self).data() == old(self).data(),
    ;
}

/// A blocking byte source.
///
/// `read` fills some prefix of `buf` and reports how many bytes it placed
/// there; zero with a non-empty buffer signals that the source is exhausted.
/// Which bytes will arrive cannot be promised in advance — a source behind a
/// transforming adapter does not know its own future — but every byte handed
/// out is appended to the source's history, so consumers can state exactly
/// where their input came from.
pub trait Source: Sized {
    /// Well-formedness of the source.
    spec fn inv(&self) -> bool;

    /// Every byte this source has handed out so far, oldest first.
    spec fn handed(&self) -> Seq<u8>;

    /// Whether the source has reported that no more bytes are coming.
    spec fn at_end(&self) -> bool;

    /// Fill some prefix of `buf`, leaving its length unchanged. The bytes
    /// placed there are exactly what the source appends to its history, and
    /// zero on a non-empty buffer means the source is exhausted.
    fn read(&mut self, buf: &mut Vec<u8>) -> (r: Result<usize, Error>)
        requires
            old(self).inv(),
        ensures
            final(self).inv(),
            final(buf)@.len() == old(buf)@.len(),
            match r {
                Ok(n) => n <= old(buf)@.len() && final(self).handed() == old(self).handed()
                    + final(buf)@.take(n as int) && (n == 0 && old(buf)@.len() > 0
                    ==> final(self).at_end()),
                Err(_) => final(self).handed() == old(self).handed(),
            },
    ;
}

/// A source with a window of already-fetched bytes, in the style of a
/// buffered reader.
///
/// The pump inspects the window, hands it to the codec engine, and then
/// consumes exactly the bytes the engine took, so that nothing is lost or
/// reordered between the stream and the engine.
pub trait BufSource: Sized {
    /// Well-formedness.
    spec fn inv(&self) -> bool;

    /// The unread bytes currently held in the window.
    spec fn avail(&self) -> Seq<u8>;

    /// Every byte handed out through `consume` so far, oldest first.
    spec fn taken(&self) -> Seq<u8>;

    /// Whether the wrapped stream has reported that no more bytes are coming
    /// (or no window storage exists to fetch them into).
    spec fn at_end(&self) -> bool;

    /// Refill the window from the wrapped stream if it is empty, and report
    /// the window's size. Zero means a genuine fetch came back empty: the
    /// stream behind the window is exhausted.
    fn fill(&mut self) -> (r: Result<usize, Error>)
        requires
            old(self).inv(),
        ensures
            final(self).inv(),
            final(self).taken() == old(self).taken(),
            match r {
                Ok(n) => n == final(self).avail().len() && (old(self).avail().len() > 0
                    ==> final(self).avail() == old(self).avail()) && (n == 0
                    ==> final(self).at_end()),
                Err(_) => final(self).avail() == old(self).avail(),
            },
    ;

    /// Borrow the window.
    fn window(&self) -> (r: &[u8])
        requires
            self.inv(),
        ensures
            r@ == self.avail(),
    ;

    /// Drop the first `amt` window bytes: the engine consumed them.
    fn consume(&mut self, amt: usize)
        requires
            old(self).inv(),
            amt <= old(self).avail().len(),
        ensures
            final(self).inv(),
            final(self).avail() == old(self).avail().skip(amt as int),
            final(self).taken() == old(self).taken() + old(self).avail().take(amt as int),
            final(self).at_end() == old(self).at_end(),
    ;
}

/// The `Source` side of a value under both stream traits, named so that a
/// contract can say which trait's item it means.
pub open spec fn source_inv<S: Source>(s: &S) -> bool {
    s.inv()
}

/// The `Source` history of a value under both stream traits.
pub open spec fn source_handed<S: Source>(s: &S) -> Seq<u8> {
    s.handed()
}

/// The `Source` exhaustion flag of a value under both stream traits.
pub open spec fn source_at_end<S: Source>(s: &S) -> bool {
    s.at_end()
}

/// The `Sink` side of a value under both stream traits.
pub open spec fn sink_inv<S: Sink>(s: &S) -> bool {
    s.inv()
}

/// The `Sink` contents of a value under both stream traits.
pub open spec fn sink_data<S: Sink>(s: &S) -> Seq<u8> {
    s.data()
}

/// An in-memory sink: every offered byte is accepted.
pub struct MemWriter {
    pub buf: Vec<u8>,
}

impl MemWriter {
    pub fn new() -> (r: MemWriter)
        ensures
            r.inv(),
            r.data() == Seq::<u8>::empty(),
    {
        MemWriter { buf: Vec::new() }
    }

    pub fn into_vec(self) -> (r: Vec<u8>)
        ensures
            r@ == self.data(),
    {
        self.buf
    }

    pub fn as_vec(&self) -> (r: &Vec<u8>)
        ensures
            r@ == self.data(),
    {
        &self.buf
    }
}

impl Sink for MemWriter {
    open spec fn data(&self) -> Seq<u8> {
        self.buf@
    }

    open spec fn inv(&self) -> bool {
        true
    }

    fn write(&mut self, buf: &[u8]) -> (r: Result<usize, Error>) {
        self.buf.extend_from_slice(buf);
        proof {
            assert(buf@.take(buf@.len() as int) =~= buf@);
        }
        Ok(buf.len())
    }

    fn flush(&mut self) -> (r: Result<(), Error>) {
        Ok(())
    }
}

/// An in-memory sink that accepts at most `max` bytes per call: a double for
/// sinks whose writes are partial.
pub struct LimitedWriter {
    pub buf: Vec<u8>,
    pub max: usize,
}

impl LimitedWriter {
    pub fn new(max: usize) -> (r: LimitedWriter)
        requires
            max >= 1,
        ensures
            r.inv(),
            r.data() == Seq::<u8>::empty(),
            r.max == max,
    {
        LimitedWriter { buf: Vec::new(), max }
    }

    pub fn into_vec(self) -> (r: Vec<u8>)
        ensures
            r@ == self.data(),
    {
        self.buf
    }

    pub fn as_vec(&self) -> (r: &Vec<u8>)
        ensures
            r@ == self.data(),
    {
        &self.buf
    }
}

impl Sink for LimitedWriter {
    open spec fn data(&self) -> Seq<u8> {
        self.buf@
    }

    open spec fn inv(&self) -> bool {
        self.max >= 1
    }

    fn write(&mut self, buf: &[u8]) -> (r: Result<usize, Error>) {
        let n = if buf.len() < self.max {
            buf.len()
        } else {
            self.max
        };
        let head = slice_subrange(buf, 0, n);
        self.buf.extend_from_slice(head);
        proof {
            assert(buf@.subrange(0, n as int) =~= buf@.take(n as int));
        }
        Ok(n)
    }

    fn flush(&mut self) -> (r: Result<(), Error>) {
        Ok(())
    }
}

/// An in-memory duplex stream: reads serve bytes out of one vector while
/// writes append to another — a double for a stream that is open both ways,
/// as the cross-direction pass-throughs of the adapters expect.
pub struct MemPipe {
    pub rd: MemReader,
    pub wr: MemWriter,
}

impl MemPipe {
    pub fn new(input: Vec<u8>) -> (r: MemPipe)
        ensures
            source_inv(&r),
            sink_inv(&r),
            r.rd.remaining() == input@,
            sink_data(&r) == Seq::<u8>::empty(),
            source_handed(&r) == Seq::<u8>::empty(),
    {
        let r = MemPipe { rd: MemReader::new(input), wr: MemWriter::new() };
        proof {
            assert(r.rd.buf@.take(0) =~= Seq::<u8>::empty());
        }
        r
    }

    pub fn into_written(self) -> (r: Vec<u8>)
        ensures
            r@ == sink_data(&self),
    {
        self.wr.into_vec()
    }
}

impl Source for MemPipe {
    open spec fn inv(&self) -> bool {
        self.rd.inv()
    }

    open spec fn handed(&self) -> Seq<u8> {
        self.rd.handed()
    }

    open spec fn at_end(&self) -> bool {
        self.rd.at_end()
    }

    fn read(&mut self, buf: &mut Vec<u8>) -> (r: Result<usize, Error>) {
        self.rd.read(buf)
    }
}

impl Sink for MemPipe {
    open spec fn data(&self) -> Seq<u8> {
        self.wr.data()
    }

    open spec fn inv(&self) -> bool {
        true
    }

    fn write(&mut self, buf: &[u8]) -> (r: Result<usize, Error>) {
        self.wr.write(buf)
    }

    fn flush(&mut self) -> (r: Result<(), Error>) {
        self.wr.flush()
    }
}

/// An in-memory source that serves bytes out of a vector.
pub struct MemReader {
    pub buf: Vec<u8>,
    pub pos: usize,
}

impl MemReader {
    /// The bytes not yet handed out.
    pub open spec fn remaining(&self) -> Seq<u8> {
        self.buf@.skip(self.pos as int)
    }

    pub fn new(data: Vec<u8>) -> (r: MemReader)
        ensures
            r.inv(),
            r.remaining() == data@,
            r.handed() == Seq::<u8>::empty(),
    {
        let r = MemReader { buf: data, pos: 0 };
        proof {
            assert(r.buf@.skip(0) =~= r.buf@);
            assert(r.buf@.take(0) =~= Seq::<u8>::empty());
        }
        r
    }
}

impl Source for MemReader {
    open spec fn inv(&self) -> bool {
        self.pos <= self.buf@.len()
    }

    open spec fn handed(&self) -> Seq<u8> {
        self.buf@.take(self.pos as int)
    }

    open spec fn at_end(&self) -> bool {
        self.pos == self.buf@.len()
    }

    fn read(&mut self, buf: &mut Vec<u8>) -> (r: Result<usize, Error>) {
        let mut n = self.buf.len() - self.pos;
        if buf.len() < n {
            n = buf.len();
        }
        let mut i: usize = 0;
        while i < n
            invariant
                i <= n,
                n <= buf@.len(),
                *self == *old(self),
                self.pos + n <= self.buf@.len(),
                self.pos + n <= usize::MAX,
                buf@.len() == old(buf)@.len(),
                forall|k: int| 0 <= k < i ==> #[trigger] buf@[k] == self.buf@[self.pos + k],
            decreases n - i,
        {
            let b = self.buf[self.pos + i];
            buf.set(i, b);
            i += 1;
        }
        self.pos = self.pos + n;
        proof {
            assert(self.buf@.take(self.pos as int) =~= old(self).buf@.take(old(self).pos as int)
                + buf@.take(n as int));
        }
        Ok(n)
    }
}

} // verus!
