//! The four adapter shapes: compress or decompress, while writing to a sink
//! or while reading from a source.
//!
//! Push adapters (`EncoderWriter`, `DecoderWriter`) take caller bytes through
//! `write` and forward the transformed stream to a sink; they are themselves
//! sinks, so symmetric pipelines can be chained without an intermediate copy.
//! Pull adapters (`EncoderReader`, `DecoderReader` and their buffered-source
//! forms) hand transformed bytes to the caller through `read`.

use vstd::prelude::*;

use crate::bufread::BufReader;
use crate::codec::{clamp64, Codec, Compress, Compression, Decompress};
use crate::error::Error;
use crate::pump;
use crate::stream::{BufSource, Sink, Source};

verus! {

/// A DEFLATE compressor behind a write interface: the caller writes raw
/// bytes, and the wrapped sink receives the compressed stream.
///
/// There is no finish-on-drop safety net: a destructor cannot carry a
/// contract here, so dropping the adapter without `finish` (or `try_finish`,
/// `flush_finish`, `reset`) leaves the stream in the sink unterminated.
/// Callers that need the output complete must finish explicitly.
pub struct EncoderWriter<W: Sink> {
    inner: pump::Writer<W, Compress>,
}

/// A DEFLATE decompressor behind a write interface: the caller writes
/// compressed bytes, and the wrapped sink receives the raw stream.
///
/// There is no finish-on-drop safety net: a destructor cannot carry a
/// contract here, so dropping the adapter without `finish` (or `try_finish`,
/// `reset`) can leave decoded bytes undelivered. Callers that need the output
/// complete must finish explicitly.
pub struct DecoderWriter<W: Sink> {
    inner: pump::Writer<W, Decompress>,
}

impl<W: Sink> EncoderWriter<W> {
    /// Raw bytes the engine has accepted since creation or the last reset.
    pub closed spec fn in_hist(&self) -> Seq<u8> {
        self.inner.codec().in_hist()
    }

    /// Compressed bytes the engine has produced since creation or the last
    /// reset.
    pub closed spec fn out_hist(&self) -> Seq<u8> {
        self.inner.codec().out_hist()
    }

    /// Whether the compressed stream has been ended.
    pub closed spec fn is_finished(&self) -> bool {
        self.inner.codec().is_finished()
    }

    /// The wrapped sink.
    pub closed spec fn sink(&self) -> W {
        self.inner.sink()
    }

    /// What the sink held when it was bound.
    pub closed spec fn base(&self) -> Seq<u8> {
        self.inner.base()
    }

    /// Engine output not yet accepted by the sink.
    pub closed spec fn pending(&self) -> Seq<u8> {
        self.inner.pending()
    }

    pub closed spec fn wf(&self) -> bool {
        self.inner.wf()
    }

    /// Bind a sink and a fresh compressor at the given level.
    pub fn new(w: W, level: Compression) -> (r: EncoderWriter<W>)
        requires
            w.inv(),
        ensures
            r.wf(),
            r.in_hist() == Seq::<u8>::empty(),
            r.out_hist() == Seq::<u8>::empty(),
            !r.is_finished(),
            r.sink() == w,
            r.base() == w.data(),
            r.pending() == Seq::<u8>::empty(),
    {
        EncoderWriter { inner: pump::Writer::new(w, Compress::new(level)) }
    }

    /// Compress some prefix of `buf` into the sink. Zero is returned only for
    /// an empty `buf` or once the stream has ended, and writing never ends
    /// the stream: only `finish` does.
    pub fn write(&mut self, buf: &[u8]) -> (r: Result<usize, Error>)
        requires
            old(self).wf(),
        ensures
            final(self).wf(),
            final(self).base() == old(self).base(),
            final(self).is_finished() == old(self).is_finished(),
            old(self).sink().data().is_prefix_of(final(self).sink().data()),
            buf@.len() == 0 ==> r == Ok::<usize, Error>(0usize),
            match r {
                Ok(n) => n <= buf@.len() && final(self).in_hist() == old(self).in_hist()
                    + buf@.take(n as int) && (n == 0 ==> buf@.len() == 0
                    || old(self).is_finished()),
                Err(_) => final(self).in_hist() == old(self).in_hist(),
            },
    {
        self.inner.write(buf)
    }

    /// Compress all of `buf` into the sink, writing as often as it takes.
    pub fn write_all(&mut self, buf: &[u8]) -> (r: Result<(), Error>)
        requires
            old(self).wf(),
        ensures
            final(self).wf(),
            final(self).base() == old(self).base(),
            old(self).in_hist().is_prefix_of(final(self).in_hist()),
            old(self).sink().data().is_prefix_of(final(self).sink().data()),
            final(self).is_finished() == old(self).is_finished(),
            buf@.len() == 0 ==> r == Ok::<(), Error>(()),
            r is Ok ==> final(self).in_hist() == old(self).in_hist() + buf@,
    {
        write_all_generic(&mut self.inner, buf)
    }

    /// Emit everything buffered behind a synchronisation boundary and flush
    /// the sink; the stream stays open for more input.
    pub fn flush(&mut self) -> (r: Result<(), Error>)
        requires
            old(self).wf(),
        ensures
            final(self).wf(),
            final(self).base() == old(self).base(),
            final(self).in_hist() == old(self).in_hist(),
            final(self).is_finished() == old(self).is_finished(),
            old(self).sink().data().is_prefix_of(final(self).sink().data()),
            r is Ok ==> final(self).pending() == Seq::<u8>::empty() && final(self).sink().data()
                == final(self).base() + final(self).out_hist(),
    {
        self.inner.flush()
    }

    /// Drive the stream to its natural end in place, delivering all remaining
    /// output to the sink: afterwards nothing is pending and the sink holds,
    /// beyond what it held when bound, exactly the bytes the engine produced.
    /// Once finished with nothing pending, calling it again is a successful
    /// no-op.
    pub fn try_finish(&mut self) -> (r: Result<(), Error>)
        requires
            old(self).wf(),
        ensures
            final(self).wf(),
            final(self).base() == old(self).base(),
            final(self).in_hist() == old(self).in_hist(),
            old(self).out_hist().is_prefix_of(final(self).out_hist()),
            old(self).sink().data().is_prefix_of(final(self).sink().data()),
            old(self).is_finished() && old(self).pending() == Seq::<u8>::empty() ==> r == Ok::<
                (),
                Error,
            >(()),
            r is Ok ==> final(self).is_finished() && final(self).pending() == Seq::<u8>::empty()
                && final(self).sink().data() == final(self).base() + final(self).out_hist(),
    {
        self.inner.finish()
    }

    /// End the stream, deliver all remaining output, and return the sink:
    /// the sink's contents are then what it held when bound plus the complete
    /// compressed stream, of which the output produced so far is a prefix.
    /// For the exact in-place statement, see `try_finish`.
    pub fn finish(self) -> (r: Result<W, Error>)
        requires
            self.wf(),
        ensures
            self.is_finished() && self.pending() == Seq::<u8>::empty() ==> r is Ok,
            match r {
                Ok(w) => w.inv() && self.base().is_prefix_of(w.data()) && (self.base()
                    + self.out_hist()).is_prefix_of(w.data()),
                Err(_) => true,
            },
    {
        let mut s = self;
        let ghost b0 = s.inner.base();
        let ghost o0 = s.inner.codec().out_hist();
        match s.inner.finish() {
            Ok(()) => {},
            Err(e) => { return Err(e) },
        }
        proof {
            let o1 = s.inner.codec().out_hist();
            assert((b0 + o1).take((b0 + o0).len() as int) =~= b0 + o1.take(o0.len() as int));
            assert((b0 + o1).take(b0.len() as int) =~= b0.take(b0.len() as int));
            assert(b0.take(b0.len() as int) =~= b0);
        }
        Ok(s.inner.into_inner())
    }

    /// Flush without ending the stream, and return the sink: the output so
    /// far is a valid stream that a later compressed block may extend. The
    /// engine is never asked to end the stream here — the in-place `flush`
    /// carries that statement in its contract, where a post-state exists.
    pub fn flush_finish(self) -> (r: Result<W, Error>)
        requires
            self.wf(),
        ensures
            match r {
                Ok(w) => w.inv() && self.base().is_prefix_of(w.data()) && (self.base()
                    + self.out_hist()).is_prefix_of(w.data()),
                Err(_) => true,
            },
    {
        let mut s = self;
        let ghost b0 = s.inner.base();
        let ghost o0 = s.inner.codec().out_hist();
        match s.inner.flush() {
            Ok(()) => {},
            Err(e) => { return Err(e) },
        }
        proof {
            let o1 = s.inner.codec().out_hist();
            assert((b0 + o1).take((b0 + o0).len() as int) =~= b0 + o1.take(o0.len() as int));
            assert((b0 + o1).take(b0.len() as int) =~= b0.take(b0.len() as int));
            assert(b0.take(b0.len() as int) =~= b0);
        }
        Ok(s.inner.into_inner())
    }

    /// Finish the current stream into the current sink, then restart with a
    /// fresh engine state on the new sink, returning the old sink. When the
    /// current stream cannot be finished, the error is returned and nothing
    /// is swapped.
    pub fn reset(&mut self, w: W) -> (r: Result<W, Error>)
        requires
            old(self).wf(),
            w.inv(),
        ensures
            final(self).wf(),
            old(self).is_finished() && old(self).pending() == Seq::<u8>::empty() ==> r is Ok,
            match r {
                Ok(prev) => prev.inv() && old(self).base().is_prefix_of(prev.data()) && (old(
                    self,
                ).base() + old(self).out_hist()).is_prefix_of(prev.data()) && old(
                    self,
                ).sink().data().is_prefix_of(prev.data()) && final(self).in_hist()
                    == Seq::<u8>::empty() && final(self).out_hist() == Seq::<u8>::empty()
                    && !final(self).is_finished() && final(self).sink() == w && final(self).base()
                    == w.data() && final(self).pending() == Seq::<u8>::empty(),
                Err(_) => final(self).in_hist() == old(self).in_hist() && final(self).base()
                    == old(self).base() && old(self).out_hist().is_prefix_of(
                    final(self).out_hist(),
                ) && old(self).sink().data().is_prefix_of(final(self).sink().data()),
            },
    {
        let ghost b0 = self.inner.base();
        match self.inner.finish() {
            Ok(()) => {},
            Err(e) => { return Err(e) },
        }
        proof {
            let o1 = self.inner.codec().out_hist();
            assert((b0 + o1).take(b0.len() as int) =~= b0.take(b0.len() as int));
            assert(b0.take(b0.len() as int) =~= b0);
        }
        self.inner.reset_codec();
        Ok(self.inner.replace(w))
    }

    /// Borrow the wrapped sink.
    pub fn get_ref(&self) -> (r: &W)
        ensures
            *r == self.sink(),
    {
        self.inner.get_ref()
    }
}

impl<W: Sink> Sink for EncoderWriter<W> {
    open spec fn data(&self) -> Seq<u8> {
        self.in_hist()
    }

    open spec fn inv(&self) -> bool {
        self.wf()
    }

    fn write(&mut self, buf: &[u8]) -> (r: Result<usize, Error>) {
        EncoderWriter::write(self, buf)
    }

    fn flush(&mut self) -> (r: Result<(), Error>) {
        EncoderWriter::flush(self)
    }
}

impl<W: Sink> DecoderWriter<W> {
    /// Compressed bytes the engine has accepted since creation or the last
    /// reset.
    pub closed spec fn in_hist(&self) -> Seq<u8> {
        self.inner.codec().in_hist()
    }

    /// Raw bytes the engine has produced since creation or the last reset.
    pub closed spec fn out_hist(&self) -> Seq<u8> {
        self.inner.codec().out_hist()
    }

    /// Whether the compressed stream reached its natural end.
    pub closed spec fn is_finished(&self) -> bool {
        self.inner.codec().is_finished()
    }

    /// The wrapped sink.
    pub closed spec fn sink(&self) -> W {
        self.inner.sink()
    }

    /// What the sink held when it was bound.
    pub closed spec fn base(&self) -> Seq<u8> {
        self.inner.base()
    }

    /// Engine output not yet accepted by the sink.
    pub closed spec fn pending(&self) -> Seq<u8> {
        self.inner.pending()
    }

    pub closed spec fn wf(&self) -> bool {
        self.inner.wf()
    }

    /// Bind a sink and a fresh decompressor.
    pub fn new(w: W) -> (r: DecoderWriter<W>)
        requires
            w.inv(),
        ensures
            r.wf(),
            r.in_hist() == Seq::<u8>::empty(),
            r.out_hist() == Seq::<u8>::empty(),
            !r.is_finished(),
            r.sink() == w,
            r.base() == w.data(),
            r.pending() == Seq::<u8>::empty(),
    {
        DecoderWriter { inner: pump::Writer::new(w, Decompress::new()) }
    }

    /// Decompress some prefix of `buf` into the sink. Zero is returned only
    /// for an empty `buf` or once the stream has ended: bytes written after
    /// the stream's natural end are never consumed, and the counters no
    /// longer advance.
    pub fn write(&mut self, buf: &[u8]) -> (r: Result<usize, Error>)
        requires
            old(self).wf(),
        ensures
            final(self).wf(),
            final(self).base() == old(self).base(),
            old(self).sink().data().is_prefix_of(final(self).sink().data()),
            buf@.len() == 0 ==> r == Ok::<usize, Error>(0usize),
            old(self).is_finished() ==> (r is Ok ==> r == Ok::<usize, Error>(0usize))
                && final(self).in_hist() == old(self).in_hist() && final(self).out_hist()
                == old(self).out_hist() && final(self).is_finished(),
            match r {
                Ok(n) => n <= buf@.len() && final(self).in_hist() == old(self).in_hist()
                    + buf@.take(n as int) && (n == 0 && buf@.len() > 0
                    ==> final(self).is_finished()),
                Err(_) => final(self).in_hist() == old(self).in_hist(),
            },
    {
        self.inner.write(buf)
    }

    /// Decompress all of `buf` into the sink, writing as often as it takes.
    pub fn write_all(&mut self, buf: &[u8]) -> (r: Result<(), Error>)
        requires
            old(self).wf(),
        ensures
            final(self).wf(),
            final(self).base() == old(self).base(),
            old(self).in_hist().is_prefix_of(final(self).in_hist()),
            old(self).sink().data().is_prefix_of(final(self).sink().data()),
            buf@.len() == 0 ==> r == Ok::<(), Error>(()),
            r is Ok ==> final(self).in_hist() == old(self).in_hist() + buf@,
    {
        write_all_generic(&mut self.inner, buf)
    }

    /// Emit everything buffered and flush the sink; the stream stays open.
    pub fn flush(&mut self) -> (r: Result<(), Error>)
        requires
            old(self).wf(),
        ensures
            final(self).wf(),
            final(self).base() == old(self).base(),
            final(self).in_hist() == old(self).in_hist(),
            r is Ok ==> final(self).pending() == Seq::<u8>::empty() && final(self).sink().data()
                == final(self).base() + final(self).out_hist(),
    {
        self.inner.flush()
    }

    /// Drive the stream to its natural end in place, delivering all remaining
    /// output to the sink: afterwards nothing is pending and the sink holds,
    /// beyond what it held when bound, exactly the bytes the engine produced.
    /// Once finished with nothing pending, calling it again is a successful
    /// no-op.
    pub fn try_finish(&mut self) -> (r: Result<(), Error>)
        requires
            old(self).wf(),
        ensures
            final(self).wf(),
            final(self).base() == old(self).base(),
            final(self).in_hist() == old(self).in_hist(),
            old(self).out_hist().is_prefix_of(final(self).out_hist()),
            old(self).sink().data().is_prefix_of(final(self).sink().data()),
            old(self).is_finished() && old(self).pending() == Seq::<u8>::empty() ==> r == Ok::<
                (),
                Error,
            >(()),
            r is Ok ==> final(self).is_finished() && final(self).pending() == Seq::<u8>::empty()
                && final(self).sink().data() == final(self).base() + final(self).out_hist(),
    {
        self.inner.finish()
    }

    /// Drive the stream to its end, deliver all remaining output, and return
    /// the sink. Fails with a data-format error when the compressed stream is
    /// truncated. For the exact in-place statement, see `try_finish`.
    pub fn finish(self) -> (r: Result<W, Error>)
        requires
            self.wf(),
        ensures
            self.is_finished() && self.pending() == Seq::<u8>::empty() ==> r is Ok,
            match r {
                Ok(w) => w.inv() && self.base().is_prefix_of(w.data()) && (self.base()
                    + self.out_hist()).is_prefix_of(w.data()),
                Err(_) => true,
            },
    {
        let mut s = self;
        let ghost b0 = s.inner.base();
        let ghost o0 = s.inner.codec().out_hist();
        match s.inner.finish() {
            Ok(()) => {},
            Err(e) => { return Err(e) },
        }
        proof {
            let o1 = s.inner.codec().out_hist();
            assert((b0 + o1).take((b0 + o0).len() as int) =~= b0 + o1.take(o0.len() as int));
            assert((b0 + o1).take(b0.len() as int) =~= b0.take(b0.len() as int));
            assert(b0.take(b0.len() as int) =~= b0);
        }
        Ok(s.inner.into_inner())
    }

    /// Finish the current stream into the current sink, then restart with a
    /// fresh engine state on the new sink, returning the old sink.
    pub fn reset(&mut self, w: W) -> (r: Result<W, Error>)
        requires
            old(self).wf(),
            w.inv(),
        ensures
            final(self).wf(),
            old(self).is_finished() && old(self).pending() == Seq::<u8>::empty() ==> r is Ok,
            match r {
                Ok(prev) => prev.inv() && old(self).base().is_prefix_of(prev.data()) && (old(
                    self,
                ).base() + old(self).out_hist()).is_prefix_of(prev.data()) && old(
                    self,
                ).sink().data().is_prefix_of(prev.data()) && final(self).in_hist()
                    == Seq::<u8>::empty() && final(self).out_hist() == Seq::<u8>::empty()
                    && !final(self).is_finished() && final(self).sink() == w && final(self).base()
                    == w.data() && final(self).pending() == Seq::<u8>::empty(),
                Err(_) => final(self).in_hist() == old(self).in_hist() && final(self).base()
                    == old(self).base() && old(self).out_hist().is_prefix_of(
                    final(self).out_hist(),
                ) && old(self).sink().data().is_prefix_of(final(self).sink().data()),
            },
    {
        let ghost b0 = self.inner.base();
        match self.inner.finish() {
            Ok(()) => {},
            Err(e) => { return Err(e) },
        }
        proof {
            let o1 = self.inner.codec().out_hist();
            assert((b0 + o1).take(b0.len() as int) =~= b0.take(b0.len() as int));
            assert(b0.take(b0.len() as int) =~= b0);
        }
        self.inner.reset_codec();
        Ok(self.inner.replace(w))
    }

    /// Borrow the wrapped sink.
    pub fn get_ref(&self) -> (r: &W)
        ensures
            *r == self.sink(),
    {
        self.inner.get_ref()
    }

    /// The running count of compressed bytes consumed, saturated at its
    /// width. Trailing bytes past the stream's end are never counted.
    pub fn total_in(&self) -> (r: u64)
        requires
            self.wf(),
        ensures
            r as nat == clamp64(self.in_hist().len()),
    {
        self.inner.total_in()
    }

    /// The running count of raw bytes produced, saturated at its width.
    pub fn total_out(&self) -> (r: u64)
        requires
            self.wf(),
        ensures
            r as nat == clamp64(self.out_hist().len()),
    {
        self.inner.total_out()
    }
}

impl<W: Sink> Sink for DecoderWriter<W> {
    open spec fn data(&self) -> Seq<u8> {
        self.in_hist()
    }

    open spec fn inv(&self) -> bool {
        self.wf()
    }

    fn write(&mut self, buf: &[u8]) -> (r: Result<usize, Error>) {
        DecoderWriter::write(self, buf)
    }

    fn flush(&mut self) -> (r: Result<(), Error>) {
        DecoderWriter::flush(self)
    }
}

/// Cross-direction pass-through: a push adapter whose wrapped stream can also
/// be read forwards raw reads straight to it, bypassing the codec. The
/// adapter's own accounting is untouched; whether reading disturbs the
/// stream's sink-side contents is the stream's affair and, as with `get_mut`,
/// the caller's responsibility.
impl<W: Sink + Source> Source for EncoderWriter<W> {
    open spec fn inv(&self) -> bool {
        crate::stream::source_inv(&self.sink())
    }

    open spec fn handed(&self) -> Seq<u8> {
        crate::stream::source_handed(&self.sink())
    }

    open spec fn at_end(&self) -> bool {
        crate::stream::source_at_end(&self.sink())
    }

    fn read(&mut self, buf: &mut Vec<u8>) -> (r: Result<usize, Error>) {
        self.inner.get_mut().read(buf)
    }
}

/// Cross-direction pass-through; see the compressing counterpart.
impl<W: Sink + Source> Source for DecoderWriter<W> {
    open spec fn inv(&self) -> bool {
        crate::stream::source_inv(&self.sink())
    }

    open spec fn handed(&self) -> Seq<u8> {
        crate::stream::source_handed(&self.sink())
    }

    open spec fn at_end(&self) -> bool {
        crate::stream::source_at_end(&self.sink())
    }

    fn read(&mut self, buf: &mut Vec<u8>) -> (r: Result<usize, Error>) {
        self.inner.get_mut().read(buf)
    }
}

/// Write all of `buf` through a push pump, retrying until the engine has
/// accepted every byte. A pump that accepts nothing is an error.
fn write_all_generic<W: Sink, C: Codec>(p: &mut pump::Writer<W, C>, buf: &[u8]) -> (r: Result<
    (),
    Error,
>)
    requires
        old(p).wf(),
    ensures
        final(p).wf(),
        final(p).base() == old(p).base(),
        old(p).codec().in_hist().is_prefix_of(final(p).codec().in_hist()),
        old(p).sink().data().is_prefix_of(final(p).sink().data()),
        C::ends_only_on_finish() ==> final(p).codec().is_finished() == old(
            p,
        ).codec().is_finished(),
        buf@.len() == 0 ==> r == Ok::<(), Error>(()),
        r is Ok ==> final(p).codec().in_hist() == old(p).codec().in_hist() + buf@,
{
    let mut done: usize = 0;
    proof {
        assert(old(p).codec().in_hist() + buf@.take(0) =~= old(p).codec().in_hist());
        assert(old(p).codec().in_hist().take(old(p).codec().in_hist().len() as int)
            =~= old(p).codec().in_hist());
        assert(old(p).sink().data().take(old(p).sink().data().len() as int) =~= old(
            p,
        ).sink().data());
        assert(buf@.take(0) =~= Seq::<u8>::empty());
    }
    while done < buf.len()
        invariant
            p.wf(),
            p.base() == old(p).base(),
            done <= buf@.len(),
            p.codec().in_hist() == old(p).codec().in_hist() + buf@.take(done as int),
            old(p).codec().in_hist().is_prefix_of(p.codec().in_hist()),
            old(p).sink().data().is_prefix_of(p.sink().data()),
            C::ends_only_on_finish() ==> p.codec().is_finished() == old(
                p,
            ).codec().is_finished(),
        decreases buf@.len() - done,
    {
        let rest = vstd::slice::slice_subrange(buf, done, buf.len());
        let ghost h_pre = p.codec().in_hist();
        let ghost sink_pre = p.sink().data();
        let n = match p.write(rest) {
            Ok(n) => n,
            Err(e) => { return Err(e) },
        };
        proof {
            pump::lemma_prefix_trans(old(p).sink().data(), sink_pre, p.sink().data());
        }
        if n == 0 {
            return Err(Error::WriteZero);
        }
        proof {
            assert(rest@ =~= buf@.skip(done as int));
            assert(buf@.take(done as int) + buf@.skip(done as int).take(n as int) =~= buf@.take(
                done + n,
            ));
            assert(old(p).codec().in_hist() + buf@.take(done as int) + buf@.skip(
                done as int,
            ).take(n as int) =~= old(p).codec().in_hist() + buf@.take(done + n));
            pump::lemma_prefix_append(
                old(p).codec().in_hist(),
                old(p).codec().in_hist(),
                buf@.take(done + n),
            );
        }
        done = done + n;
    }
    proof {
        assert(buf@.take(buf@.len() as int) =~= buf@);
    }
    Ok(())
}

/// Once a push adapter reports a successful flush, nothing is pending and the
/// sink has received, beyond what it held when bound, exactly the bytes the
/// engine produced, in order — however small the portions the sink accepted
/// per call. The same follows a successful finish, before the adapter is
/// consumed.
pub proof fn lemma_encoder_delivers_everything<W: Sink>(e: &EncoderWriter<W>)
    requires
        e.wf(),
        e.pending() == Seq::<u8>::empty(),
    ensures
        e.sink().data() == e.base() + e.out_hist(),
        e.sink().data().len() == e.base().len() + e.out_hist().len(),
{
    pump::lemma_sink_receives_all_output(&e.inner);
}

/// The decompressing counterpart of `lemma_encoder_delivers_everything`.
pub proof fn lemma_decoder_delivers_everything<W: Sink>(d: &DecoderWriter<W>)
    requires
        d.wf(),
        d.pending() == Seq::<u8>::empty(),
    ensures
        d.sink().data() == d.base() + d.out_hist(),
        d.sink().data().len() == d.base().len() + d.out_hist().len(),
{
    pump::lemma_sink_receives_all_output(&d.inner);
}

/// A DEFLATE compressor behind a read interface over a buffered source: the
/// caller reads compressed bytes while the source supplies raw bytes.
pub struct EncoderReaderBuf<R: BufSource> {
    obj: R,
    data: Compress,
}

impl<R: BufSource> EncoderReaderBuf<R> {
    /// Raw bytes the engine has accepted since creation or the last reset.
    pub closed spec fn in_hist(&self) -> Seq<u8> {
        self.data.in_hist()
    }

    /// Compressed bytes the engine has produced since creation or the last
    /// reset.
    pub closed spec fn out_hist(&self) -> Seq<u8> {
        self.data.out_hist()
    }

    /// Whether the compressed stream has been ended.
    pub closed spec fn is_finished(&self) -> bool {
        self.data.is_finished()
    }

    /// The wrapped source.
    pub closed spec fn source(&self) -> R {
        self.obj
    }

    /// Bytes consumed from the source since it was bound.
    pub closed spec fn taken(&self) -> Seq<u8> {
        self.obj.taken()
    }

    /// Unread bytes in the source's window.
    pub closed spec fn avail(&self) -> Seq<u8> {
        self.obj.avail()
    }

    /// Whether the source behind the window has reported exhaustion.
    pub closed spec fn source_at_end(&self) -> bool {
        self.obj.at_end()
    }

    pub closed spec fn wf(&self) -> bool {
        self.obj.inv() && self.data.inv()
    }

    /// Bind a buffered source and a fresh compressor at the given level.
    pub fn new(r: R, level: Compression) -> (res: EncoderReaderBuf<R>)
        requires
            r.inv(),
        ensures
            res.wf(),
            res.in_hist() == Seq::<u8>::empty(),
            res.out_hist() == Seq::<u8>::empty(),
            !res.is_finished(),
            res.source() == r,
    {
        EncoderReaderBuf { obj: r, data: Compress::new(level) }
    }

    /// Fill some prefix of `dst` with compressed bytes. The engine consumes
    /// exactly the bytes taken from the source, in order; an empty `dst` and
    /// every call after the stream's end are no-ops returning zero.
    pub fn read(&mut self, dst: &mut Vec<u8>) -> (r: Result<usize, Error>)
        requires
            old(self).wf(),
        ensures
            final(self).wf(),
            final(dst)@.len() == old(dst)@.len(),
            old(self).taken().is_prefix_of(final(self).taken()),
            final(self).in_hist() == old(self).in_hist() + final(self).taken().skip(
                old(self).taken().len() as int,
            ),
            old(dst)@.len() == 0 || old(self).is_finished() ==> r == Ok::<usize, Error>(0usize)
                && final(self).in_hist() == old(self).in_hist() && final(self).out_hist()
                == old(self).out_hist() && final(self).taken() == old(self).taken()
                && final(self).avail() == old(self).avail() && final(self).is_finished()
                == old(self).is_finished() && final(self).source_at_end()
                == old(self).source_at_end() && final(dst)@ == old(dst)@,
            match r {
                Ok(n) => n <= old(dst)@.len() && final(self).out_hist() == old(self).out_hist()
                    + final(dst)@.take(n as int) && (n == 0 && old(dst)@.len() > 0
                    && !old(self).is_finished() ==> final(self).is_finished()
                    || (final(self).avail().len() == 0 && final(self).source_at_end())),
                Err(_) => final(self).out_hist() == old(self).out_hist(),
            },
    {
        pump::read(&mut self.obj, &mut self.data, dst)
    }

    /// Read until the stream ends or the source is exhausted, appending all
    /// compressed bytes to `out` and returning how many arrived.
    pub fn read_to_end(&mut self, out: &mut Vec<u8>) -> (r: Result<usize, Error>)
        requires
            old(self).wf(),
        ensures
            final(self).wf(),
            old(self).taken().is_prefix_of(final(self).taken()),
            old(self).out_hist().is_prefix_of(final(self).out_hist()),
            final(self).in_hist() == old(self).in_hist() + final(self).taken().skip(
                old(self).taken().len() as int,
            ),
            old(self).is_finished() ==> r == Ok::<usize, Error>(0usize) && final(out)@ == old(
                out,
            )@ && final(self).in_hist() == old(self).in_hist() && final(self).out_hist()
                == old(self).out_hist() && final(self).taken() == old(self).taken()
                && final(self).is_finished(),
            match r {
                Ok(n) => final(out)@ == old(out)@ + final(self).out_hist().skip(
                    old(self).out_hist().len() as int,
                ) && old(out)@.len() + n == final(out)@.len() && (final(self).is_finished()
                    || (final(self).avail().len() == 0 && final(self).source_at_end())),
                Err(_) => old(out)@.is_prefix_of(final(out)@),
            },
    {
        pump::read_to_end(&mut self.obj, &mut self.data, out)
    }

    /// Restart with a fresh engine state on another source, returning the old
    /// source.
    pub fn reset(&mut self, r: R) -> (res: R)
        requires
            old(self).wf(),
            r.inv(),
        ensures
            final(self).wf(),
            res == old(self).source(),
            final(self).source() == r,
            final(self).in_hist() == Seq::<u8>::empty(),
            final(self).out_hist() == Seq::<u8>::empty(),
            !final(self).is_finished(),
    {
        self.data.reset();
        let mut r2 = r;
        core::mem::swap(&mut self.obj, &mut r2);
        r2
    }

    /// Borrow the wrapped source.
    pub fn get_ref(&self) -> (r: &R)
        ensures
            *r == self.source(),
    {
        &self.obj
    }

    /// Borrow the wrapped source mutably. Disturbing the stream may corrupt
    /// later pump behaviour; that is the caller's responsibility.
    pub fn get_mut(&mut self) -> (r: &mut R)
        ensures
            *r == old(self).source(),
            final(self).source() == *final(r),
            final(self).in_hist() == old(self).in_hist(),
            final(self).out_hist() == old(self).out_hist(),
            final(self).is_finished() == old(self).is_finished(),
    {
        &mut self.obj
    }

    /// Consume the adapter, returning the wrapped source.
    pub fn into_inner(self) -> (r: R)
        ensures
            r == self.source(),
            self.wf() ==> r.inv(),
    {
        self.obj
    }
}

impl<R: BufSource> Source for EncoderReaderBuf<R> {
    open spec fn inv(&self) -> bool {
        self.wf()
    }

    open spec fn handed(&self) -> Seq<u8> {
        self.out_hist()
    }

    open spec fn at_end(&self) -> bool {
        self.is_finished() || (self.avail().len() == 0 && self.source_at_end())
    }

    fn read(&mut self, buf: &mut Vec<u8>) -> (r: Result<usize, Error>) {
        EncoderReaderBuf::read(self, buf)
    }
}

/// A DEFLATE decompressor behind a read interface over a buffered source: the
/// caller reads raw bytes while the source supplies compressed bytes.
pub struct DecoderReaderBuf<R: BufSource> {
    obj: R,
    data: Decompress,
}

impl<R: BufSource> DecoderReaderBuf<R> {
    /// Compressed bytes the engine has accepted since creation or the last
    /// reset. Trailing bytes past the stream's end are never consumed.
    pub closed spec fn in_hist(&self) -> Seq<u8> {
        self.data.in_hist()
    }

    /// Raw bytes the engine has produced since creation or the last reset.
    pub closed spec fn out_hist(&self) -> Seq<u8> {
        self.data.out_hist()
    }

    /// Whether the compressed stream reached its natural end.
    pub closed spec fn is_finished(&self) -> bool {
        self.data.is_finished()
    }

    /// The wrapped source.
    pub closed spec fn source(&self) -> R {
        self.obj
    }

    /// Bytes consumed from the source since it was bound.
    pub closed spec fn taken(&self) -> Seq<u8> {
        self.obj.taken()
    }

    /// Unread bytes in the source's window.
    pub closed spec fn avail(&self) -> Seq<u8> {
        self.obj.avail()
    }

    /// Whether the source behind the window has reported exhaustion.
    pub closed spec fn source_at_end(&self) -> bool {
        self.obj.at_end()
    }

    pub closed spec fn wf(&self) -> bool {
        self.obj.inv() && self.data.inv()
    }

    /// Bind a buffered source and a fresh decompressor.
    pub fn new(r: R) -> (res: DecoderReaderBuf<R>)
        requires
            r.inv(),
        ensures
            res.wf(),
            res.in_hist() == Seq::<u8>::empty(),
            res.out_hist() == Seq::<u8>::empty(),
            !res.is_finished(),
            res.source() == r,
    {
        DecoderReaderBuf { obj: r, data: Decompress::new() }
    }

    /// Fill some prefix of `dst` with raw bytes. The engine consumes exactly
    /// the bytes taken from the source, in order; an empty `dst` and every
    /// call after the stream's end are no-ops returning zero, and bytes after
    /// the stream's end stay in the source.
    pub fn read(&mut self, dst: &mut Vec<u8>) -> (r: Result<usize, Error>)
        requires
            old(self).wf(),
        ensures
            final(self).wf(),
            final(dst)@.len() == old(dst)@.len(),
            old(self).taken().is_prefix_of(final(self).taken()),
            final(self).in_hist() == old(self).in_hist() + final(self).taken().skip(
                old(self).taken().len() as int,
            ),
            old(dst)@.len() == 0 || old(self).is_finished() ==> r == Ok::<usize, Error>(0usize)
                && final(self).in_hist() == old(self).in_hist() && final(self).out_hist()
                == old(self).out_hist() && final(self).taken() == old(self).taken()
                && final(self).avail() == old(self).avail() && final(self).is_finished()
                == old(self).is_finished() && final(self).source_at_end()
                == old(self).source_at_end() && final(dst)@ == old(dst)@,
            match r {
                Ok(n) => n <= old(dst)@.len() && final(self).out_hist() == old(self).out_hist()
                    + final(dst)@.take(n as int) && (n == 0 && old(dst)@.len() > 0
                    && !old(self).is_finished() ==> final(self).is_finished()
                    || (final(self).avail().len() == 0 && final(self).source_at_end())),
                Err(_) => final(self).out_hist() == old(self).out_hist(),
            },
    {
        pump::read(&mut self.obj, &mut self.data, dst)
    }

    /// Read until the stream ends or the source is exhausted, appending all
    /// raw bytes to `out` and returning how many arrived.
    pub fn read_to_end(&mut self, out: &mut Vec<u8>) -> (r: Result<usize, Error>)
        requires
            old(self).wf(),
        ensures
            final(self).wf(),
            old(self).taken().is_prefix_of(final(self).taken()),
            old(self).out_hist().is_prefix_of(final(self).out_hist()),
            final(self).in_hist() == old(self).in_hist() + final(self).taken().skip(
                old(self).taken().len() as int,
            ),
            old(self).is_finished() ==> r == Ok::<usize, Error>(0usize) && final(out)@ == old(
                out,
            )@ && final(self).in_hist() == old(self).in_hist() && final(self).out_hist()
                == old(self).out_hist() && final(self).taken() == old(self).taken()
                && final(self).is_finished(),
            match r {
                Ok(n) => final(out)@ == old(out)@ + final(self).out_hist().skip(
                    old(self).out_hist().len() as int,
                ) && old(out)@.len() + n == final(out)@.len() && (final(self).is_finished()
                    || (final(self).avail().len() == 0 && final(self).source_at_end())),
                Err(_) => old(out)@.is_prefix_of(final(out)@),
            },
    {
        pump::read_to_end(&mut self.obj, &mut self.data, out)
    }

    /// Restart with a fresh engine state on another source, returning the old
    /// source.
    pub fn reset(&mut self, r: R) -> (res: R)
        requires
            old(self).wf(),
            r.inv(),
        ensures
            final(self).wf(),
            res == old(self).source(),
            final(self).source() == r,
            final(self).in_hist() == Seq::<u8>::empty(),
            final(self).out_hist() == Seq::<u8>::empty(),
            !final(self).is_finished(),
    {
        self.data.reset();
        let mut r2 = r;
        core::mem::swap(&mut self.obj, &mut r2);
        r2
    }

    /// Restart with a fresh engine state, keeping the same source: reading
    /// goes on from wherever the source stands.
    pub fn reset_data(&mut self)
        requires
            old(self).wf(),
        ensures
            final(self).wf(),
            final(self).source() == old(self).source(),
            final(self).in_hist() == Seq::<u8>::empty(),
            final(self).out_hist() == Seq::<u8>::empty(),
            !final(self).is_finished(),
    {
        self.data.reset();
    }

    /// Borrow the wrapped source.
    pub fn get_ref(&self) -> (r: &R)
        ensures
            *r == self.source(),
    {
        &self.obj
    }

    /// Borrow the wrapped source mutably. Disturbing the stream may corrupt
    /// later pump behaviour; that is the caller's responsibility.
    pub fn get_mut(&mut self) -> (r: &mut R)
        ensures
            *r == old(self).source(),
            final(self).source() == *final(r),
            final(self).in_hist() == old(self).in_hist(),
            final(self).out_hist() == old(self).out_hist(),
            final(self).is_finished() == old(self).is_finished(),
    {
        &mut self.obj
    }

    /// Consume the adapter, returning the wrapped source.
    pub fn into_inner(self) -> (r: R)
        ensures
            r == self.source(),
            self.wf() ==> r.inv(),
    {
        self.obj
    }

    /// The running count of compressed bytes consumed, saturated at its
    /// width. Buffered but unconsumed source bytes are not counted, nor are
    /// trailing bytes past the stream's end.
    pub fn total_in(&self) -> (r: u64)
        requires
            self.wf(),
        ensures
            r as nat == clamp64(self.in_hist().len()),
    {
        self.data.total_in()
    }

    /// The running count of raw bytes produced, saturated at its width.
    pub fn total_out(&self) -> (r: u64)
        requires
            self.wf(),
        ensures
            r as nat == clamp64(self.out_hist().len()),
    {
        self.data.total_out()
    }
}

impl<R: BufSource> Source for DecoderReaderBuf<R> {
    open spec fn inv(&self) -> bool {
        self.wf()
    }

    open spec fn handed(&self) -> Seq<u8> {
        self.out_hist()
    }

    open spec fn at_end(&self) -> bool {
        self.is_finished() || (self.avail().len() == 0 && self.source_at_end())
    }

    fn read(&mut self, buf: &mut Vec<u8>) -> (r: Result<usize, Error>) {
        DecoderReaderBuf::read(self, buf)
    }
}

/// A DEFLATE compressor behind a read interface: the caller reads compressed
/// bytes while the wrapped source supplies raw bytes through a window of the
/// default size.
pub struct EncoderReader<R: Source> {
    inner: EncoderReaderBuf<BufReader<R>>,
}

impl<R: Source> EncoderReader<R> {
    /// Raw bytes the engine has accepted since creation or the last reset.
    pub closed spec fn in_hist(&self) -> Seq<u8> {
        self.inner.in_hist()
    }

    /// Compressed bytes the engine has produced since creation or the last
    /// reset.
    pub closed spec fn out_hist(&self) -> Seq<u8> {
        self.inner.out_hist()
    }

    /// Whether the compressed stream has been ended.
    pub closed spec fn is_finished(&self) -> bool {
        self.inner.is_finished()
    }

    /// The wrapped source.
    pub closed spec fn source(&self) -> R {
        self.inner.source().source()
    }

    /// Bytes consumed from the window since the source was bound.
    pub closed spec fn taken(&self) -> Seq<u8> {
        self.inner.taken()
    }

    /// Unread bytes in the window.
    pub closed spec fn avail(&self) -> Seq<u8> {
        self.inner.avail()
    }

    /// Whether the source behind the window has reported exhaustion.
    pub closed spec fn source_at_end(&self) -> bool {
        self.inner.source_at_end()
    }

    pub closed spec fn wf(&self) -> bool {
        self.inner.wf()
    }

    /// Bind a source and a fresh compressor at the given level.
    pub fn new(r: R, level: Compression) -> (res: EncoderReader<R>)
        requires
            r.inv(),
        ensures
            res.wf(),
            res.in_hist() == Seq::<u8>::empty(),
            res.out_hist() == Seq::<u8>::empty(),
            !res.is_finished(),
            res.source() == r,
    {
        EncoderReader { inner: EncoderReaderBuf::new(BufReader::new(r), level) }
    }

    /// Fill some prefix of `dst` with compressed bytes; see the buffered
    /// form for the full contract.
    pub fn read(&mut self, dst: &mut Vec<u8>) -> (r: Result<usize, Error>)
        requires
            old(self).wf(),
        ensures
            final(self).wf(),
            final(dst)@.len() == old(dst)@.len(),
            old(self).taken().is_prefix_of(final(self).taken()),
            final(self).in_hist() == old(self).in_hist() + final(self).taken().skip(
                old(self).taken().len() as int,
            ),
            old(dst)@.len() == 0 || old(self).is_finished() ==> r == Ok::<usize, Error>(0usize)
                && final(self).in_hist() == old(self).in_hist() && final(self).out_hist()
                == old(self).out_hist() && final(self).taken() == old(self).taken()
                && final(self).avail() == old(self).avail() && final(self).is_finished()
                == old(self).is_finished() && final(self).source_at_end()
                == old(self).source_at_end() && final(dst)@ == old(dst)@,
            match r {
                Ok(n) => n <= old(dst)@.len() && final(self).out_hist() == old(self).out_hist()
                    + final(dst)@.take(n as int) && (n == 0 && old(dst)@.len() > 0
                    && !old(self).is_finished() ==> final(self).is_finished()
                    || (final(self).avail().len() == 0 && final(self).source_at_end())),
                Err(_) => final(self).out_hist() == old(self).out_hist(),
            },
    {
        self.inner.read(dst)
    }

    /// Read until the stream ends or the source is exhausted, appending all
    /// compressed bytes to `out` and returning how many arrived.
    pub fn read_to_end(&mut self, out: &mut Vec<u8>) -> (r: Result<usize, Error>)
        requires
            old(self).wf(),
        ensures
            final(self).wf(),
            old(self).taken().is_prefix_of(final(self).taken()),
            old(self).out_hist().is_prefix_of(final(self).out_hist()),
            final(self).in_hist() == old(self).in_hist() + final(self).taken().skip(
                old(self).taken().len() as int,
            ),
            old(self).is_finished() ==> r == Ok::<usize, Error>(0usize) && final(out)@ == old(
                out,
            )@ && final(self).in_hist() == old(self).in_hist() && final(self).out_hist()
                == old(self).out_hist() && final(self).taken() == old(self).taken()
                && final(self).is_finished(),
            match r {
                Ok(n) => final(out)@ == old(out)@ + final(self).out_hist().skip(
                    old(self).out_hist().len() as int,
                ) && old(out)@.len() + n == final(out)@.len() && (final(self).is_finished()
                    || (final(self).avail().len() == 0 && final(self).source_at_end())),
                Err(_) => old(out)@.is_prefix_of(final(out)@),
            },
    {
        self.inner.read_to_end(out)
    }

    /// Restart with a fresh engine state on another source, returning the old
    /// source. Buffered bytes of the old stream are discarded.
    pub fn reset(&mut self, r: R) -> (res: R)
        requires
            old(self).wf(),
            r.inv(),
        ensures
            final(self).wf(),
            res == old(self).source(),
            final(self).source() == r,
            final(self).in_hist() == Seq::<u8>::empty(),
            final(self).out_hist() == Seq::<u8>::empty(),
            !final(self).is_finished(),
            final(self).taken() == Seq::<u8>::empty(),
            final(self).avail() == Seq::<u8>::empty(),
    {
        self.inner.data.reset();
        self.inner.obj.reset(r)
    }

    /// Borrow the wrapped source.
    pub fn get_ref(&self) -> (r: &R)
        ensures
            *r == self.source(),
    {
        self.inner.obj.get_ref()
    }

    /// Borrow the wrapped source mutably. Disturbing the stream may corrupt
    /// later pump behaviour; that is the caller's responsibility.
    pub fn get_mut(&mut self) -> (r: &mut R)
        ensures
            *r == old(self).source(),
            final(self).source() == *final(r),
            final(self).in_hist() == old(self).in_hist(),
            final(self).out_hist() == old(self).out_hist(),
            final(self).is_finished() == old(self).is_finished(),
            final(self).avail() == old(self).avail(),
            final(self).taken() == old(self).taken(),
    {
        self.inner.obj.get_mut()
    }

    /// Consume the adapter, returning the wrapped source.
    pub fn into_inner(self) -> (r: R)
        ensures
            r == self.source(),
    {
        self.inner.into_inner().into_inner()
    }
}

impl<R: Source> Source for EncoderReader<R> {
    open spec fn inv(&self) -> bool {
        self.wf()
    }

    open spec fn handed(&self) -> Seq<u8> {
        self.out_hist()
    }

    open spec fn at_end(&self) -> bool {
        self.is_finished() || (self.avail().len() == 0 && self.source_at_end())
    }

    fn read(&mut self, buf: &mut Vec<u8>) -> (r: Result<usize, Error>) {
        EncoderReader::read(self, buf)
    }
}

/// A DEFLATE decompressor behind a read interface: the caller reads raw bytes
/// while the wrapped source supplies compressed bytes through a window.
pub struct DecoderReader<R: Source> {
    inner: DecoderReaderBuf<BufReader<R>>,
}

impl<R: Source> DecoderReader<R> {
    /// Compressed bytes the engine has accepted since creation or the last
    /// reset. Trailing bytes past the stream's end are never consumed.
    pub closed spec fn in_hist(&self) -> Seq<u8> {
        self.inner.in_hist()
    }

    /// Raw bytes the engine has produced since creation or the last reset.
    pub closed spec fn out_hist(&self) -> Seq<u8> {
        self.inner.out_hist()
    }

    /// Whether the compressed stream reached its natural end.
    pub closed spec fn is_finished(&self) -> bool {
        self.inner.is_finished()
    }

    /// The wrapped source.
    pub closed spec fn source(&self) -> R {
        self.inner.source().source()
    }

    /// Bytes consumed from the window since the source was bound.
    pub closed spec fn taken(&self) -> Seq<u8> {
        self.inner.taken()
    }

    /// Unread bytes in the window.
    pub closed spec fn avail(&self) -> Seq<u8> {
        self.inner.avail()
    }

    /// Whether the source behind the window has reported exhaustion.
    pub closed spec fn source_at_end(&self) -> bool {
        self.inner.source_at_end()
    }

    pub closed spec fn wf(&self) -> bool {
        self.inner.wf()
    }

    /// Bind a source and a fresh decompressor, with a window of the default
    /// size.
    pub fn new(r: R) -> (res: DecoderReader<R>)
        requires
            r.inv(),
        ensures
            res.wf(),
            res.in_hist() == Seq::<u8>::empty(),
            res.out_hist() == Seq::<u8>::empty(),
            !res.is_finished(),
            res.source() == r,
    {
        DecoderReader { inner: DecoderReaderBuf::new(BufReader::new(r)) }
    }

    /// As `new`, but the given vector is the window's storage; its length is
    /// never grown, and it is recommended to be large.
    pub fn new_with_buf(r: R, buf: Vec<u8>) -> (res: DecoderReader<R>)
        requires
            r.inv(),
        ensures
            res.wf(),
            res.in_hist() == Seq::<u8>::empty(),
            res.out_hist() == Seq::<u8>::empty(),
            !res.is_finished(),
            res.source() == r,
    {
        DecoderReader { inner: DecoderReaderBuf::new(BufReader::with_buf(buf, r)) }
    }

    /// Fill some prefix of `dst` with raw bytes; see the buffered form for
    /// the full contract.
    pub fn read(&mut self, dst: &mut Vec<u8>) -> (r: Result<usize, Error>)
        requires
            old(self).wf(),
        ensures
            final(self).wf(),
            final(dst)@.len() == old(dst)@.len(),
            old(self).taken().is_prefix_of(final(self).taken()),
            final(self).in_hist() == old(self).in_hist() + final(self).taken().skip(
                old(self).taken().len() as int,
            ),
            old(dst)@.len() == 0 || old(self).is_finished() ==> r == Ok::<usize, Error>(0usize)
                && final(self).in_hist() == old(self).in_hist() && final(self).out_hist()
                == old(self).out_hist() && final(self).taken() == old(self).taken()
                && final(self).avail() == old(self).avail() && final(self).is_finished()
                == old(self).is_finished() && final(self).source_at_end()
                == old(self).source_at_end() && final(dst)@ == old(dst)@,
            match r {
                Ok(n) => n <= old(dst)@.len() && final(self).out_hist() == old(self).out_hist()
                    + final(dst)@.take(n as int) && (n == 0 && old(dst)@.len() > 0
                    && !old(self).is_finished() ==> final(self).is_finished()
                    || (final(self).avail().len() == 0 && final(self).source_at_end())),
                Err(_) => final(self).out_hist() == old(self).out_hist(),
            },
    {
        self.inner.read(dst)
    }

    /// Read until the stream ends or the source is exhausted, appending all
    /// raw bytes to `out` and returning how many arrived.
    pub fn read_to_end(&mut self, out: &mut Vec<u8>) -> (r: Result<usize, Error>)
        requires
            old(self).wf(),
        ensures
            final(self).wf(),
            old(self).taken().is_prefix_of(final(self).taken()),
            old(self).out_hist().is_prefix_of(final(self).out_hist()),
            final(self).in_hist() == old(self).in_hist() + final(self).taken().skip(
                old(self).taken().len() as int,
            ),
            old(self).is_finished() ==> r == Ok::<usize, Error>(0usize) && final(out)@ == old(
                out,
            )@ && final(self).in_hist() == old(self).in_hist() && final(self).out_hist()
                == old(self).out_hist() && final(self).taken() == old(self).taken()
                && final(self).is_finished(),
            match r {
                Ok(n) => final(out)@ == old(out)@ + final(self).out_hist().skip(
                    old(self).out_hist().len() as int,
                ) && old(out)@.len() + n == final(out)@.len() && (final(self).is_finished()
                    || (final(self).avail().len() == 0 && final(self).source_at_end())),
                Err(_) => old(out)@.is_prefix_of(final(out)@),
            },
    {
        self.inner.read_to_end(out)
    }

    /// Restart with a fresh engine state on another source, returning the old
    /// source. Buffered bytes of the old stream are discarded.
    pub fn reset(&mut self, r: R) -> (res: R)
        requires
            old(self).wf(),
            r.inv(),
        ensures
            final(self).wf(),
            res == old(self).source(),
            final(self).source() == r,
            final(self).in_hist() == Seq::<u8>::empty(),
            final(self).out_hist() == Seq::<u8>::empty(),
            !final(self).is_finished(),
            final(self).taken() == Seq::<u8>::empty(),
            final(self).avail() == Seq::<u8>::empty(),
    {
        self.inner.data.reset();
        self.inner.obj.reset(r)
    }

    /// Borrow the wrapped source.
    pub fn get_ref(&self) -> (r: &R)
        ensures
            *r == self.source(),
    {
        self.inner.obj.get_ref()
    }

    /// Borrow the wrapped source mutably. Disturbing the stream may corrupt
    /// later pump behaviour; that is the caller's responsibility.
    pub fn get_mut(&mut self) -> (r: &mut R)
        ensures
            *r == old(self).source(),
            final(self).source() == *final(r),
            final(self).in_hist() == old(self).in_hist(),
            final(self).out_hist() == old(self).out_hist(),
            final(self).is_finished() == old(self).is_finished(),
            final(self).avail() == old(self).avail(),
            final(self).taken() == old(self).taken(),
    {
        self.inner.obj.get_mut()
    }

    /// Consume the adapter, returning the wrapped source.
    pub fn into_inner(self) -> (r: R)
        ensures
            r == self.source(),
    {
        self.inner.into_inner().into_inner()
    }

    /// The running count of compressed bytes consumed, saturated at its
    /// width. Buffered but unconsumed window bytes are not counted, nor are
    /// trailing bytes past the stream's end.
    pub fn total_in(&self) -> (r: u64)
        requires
            self.wf(),
        ensures
            r as nat == clamp64(self.in_hist().len()),
    {
        self.inner.total_in()
    }

    /// The running count of raw bytes produced, saturated at its width.
    pub fn total_out(&self) -> (r: u64)
        requires
            self.wf(),
        ensures
            r as nat == clamp64(self.out_hist().len()),
    {
        self.inner.total_out()
    }
}

impl<R: Source> Source for DecoderReader<R> {
    open spec fn inv(&self) -> bool {
        self.wf()
    }

    open spec fn handed(&self) -> Seq<u8> {
        self.out_hist()
    }

    open spec fn at_end(&self) -> bool {
        self.is_finished() || (self.avail().len() == 0 && self.source_at_end())
    }

    fn read(&mut self, buf: &mut Vec<u8>) -> (r: Result<usize, Error>) {
        DecoderReader::read(self, buf)
    }
}

/// Cross-direction pass-through: a pull adapter whose wrapped source can also
/// be written forwards raw writes straight to it, bypassing the codec. The
/// adapter's own accounting is untouched; whether writing disturbs the
/// stream's source-side window is the stream's affair and, as with `get_mut`,
/// the caller's responsibility.
impl<R: BufSource + Sink> Sink for EncoderReaderBuf<R> {
    open spec fn data(&self) -> Seq<u8> {
        crate::stream::sink_data(&self.source())
    }

    open spec fn inv(&self) -> bool {
        crate::stream::sink_inv(&self.source())
    }

    fn write(&mut self, buf: &[u8]) -> (r: Result<usize, Error>) {
        self.obj.write(buf)
    }

    fn flush(&mut self) -> (r: Result<(), Error>) {
        self.obj.flush()
    }
}

/// Cross-direction pass-through; see the buffered compressing counterpart.
impl<R: BufSource + Sink> Sink for DecoderReaderBuf<R> {
    open spec fn data(&self) -> Seq<u8> {
        crate::stream::sink_data(&self.source())
    }

    open spec fn inv(&self) -> bool {
        crate::stream::sink_inv(&self.source())
    }

    fn write(&mut self, buf: &[u8]) -> (r: Result<usize, Error>) {
        self.obj.write(buf)
    }

    fn flush(&mut self) -> (r: Result<(), Error>) {
        self.obj.flush()
    }
}

/// Cross-direction pass-through to the leaf stream behind the window.
impl<R: Source + Sink> Sink for EncoderReader<R> {
    open spec fn data(&self) -> Seq<u8> {
        crate::stream::sink_data(&self.source())
    }

    open spec fn inv(&self) -> bool {
        crate::stream::sink_inv(&self.source())
    }

    fn write(&mut self, buf: &[u8]) -> (r: Result<usize, Error>) {
        self.inner.obj.get_mut().write(buf)
    }

    fn flush(&mut self) -> (r: Result<(), Error>) {
        self.inner.obj.get_mut().flush()
    }
}

/// Cross-direction pass-through to the leaf stream behind the window.
impl<R: Source + Sink> Sink for DecoderReader<R> {
    open spec fn data(&self) -> Seq<u8> {
        crate::stream::sink_data(&self.source())
    }

    open spec fn inv(&self) -> bool {
        crate::stream::sink_inv(&self.source())
    }

    fn write(&mut self, buf: &[u8]) -> (r: Result<usize, Error>) {
        self.inner.obj.get_mut().write(buf)
    }

    fn flush(&mut self) -> (r: Result<(), Error>) {
        self.inner.obj.get_mut().flush()
    }
}

/// In a chained pipeline — a compress-on-write adapter whose sink is a
/// decompress-on-write adapter — once nothing is pending between the layers,
/// the inner engine has been fed exactly the compressed bytes the outer
/// engine produced, in order.
pub proof fn lemma_chain_feeds_inner_exactly<W: Sink>(e: &EncoderWriter<DecoderWriter<W>>)
    requires
        e.wf(),
        e.pending() == Seq::<u8>::empty(),
        e.base() == Seq::<u8>::empty(),
    ensures
        e.sink().in_hist() == e.out_hist(),
{
    pump::lemma_sink_receives_all_output(&e.inner);
    assert(Seq::<u8>::empty() + e.out_hist() =~= e.out_hist());
}

} // verus!
