//! The stream pump: the loop that drives a codec engine incrementally over
//! real streams, in both directions.
//!
//! Push mode (`Writer`) feeds caller bytes to the engine and forwards every
//! produced byte to a sink, retrying partial writes. Pull mode (`read`)
//! refills a buffered source, hands its window to the engine, and consumes
//! exactly what the engine took.

use vstd::prelude::*;
use vstd::slice::slice_subrange;

use crate::codec::{Codec, Flush};
use crate::error::Error;
use crate::stream::{BufSource, Sink};

verus! {

/// Size of the scratch buffer an engine step writes into.
pub const OUT_CHUNK: usize = 32768;

/// How many consecutive engine steps without progress the pump tolerates
/// before it gives up; a guard that keeps every loop finite.
pub const STALL_LIMIT: usize = 4096;

/// A prefix of a sequence is still a prefix after the sequence grows.
pub proof fn lemma_prefix_append(a: Seq<u8>, b: Seq<u8>, t: Seq<u8>)
    requires
        a.is_prefix_of(b),
    ensures
        a.is_prefix_of(b + t),
{
    assert((b + t).take(a.len() as int) =~= b.take(a.len() as int));
}

/// A prefix of a prefix is a prefix.
pub proof fn lemma_prefix_trans(a: Seq<u8>, b: Seq<u8>, c: Seq<u8>)
    requires
        a.is_prefix_of(b),
        b.is_prefix_of(c),
    ensures
        a.is_prefix_of(c),
{
    assert(c.take(a.len() as int) =~= b.take(a.len() as int));
}

/// Append the first `n` bytes of `src` to `dst`.
pub(crate) fn push_prefix(dst: &mut Vec<u8>, src: &Vec<u8>, n: usize)
    requires
        n <= src@.len(),
    ensures
        final(dst)@ == old(dst)@ + src@.take(n as int),
{
    let head = slice_subrange(src.as_slice(), 0, n);
    dst.extend_from_slice(head);
    proof {
        assert(src@.subrange(0, n as int) =~= src@.take(n as int));
    }
}

/// The push-mode pump: an exclusive sink, an engine state, and the engine
/// output that has not yet reached the sink.
///
/// The governing invariant: the sink's contents plus the pending bytes equal
/// what the sink held when it was bound plus everything the engine has
/// produced — no byte is lost, duplicated or reordered on its way out.
pub struct Writer<W: Sink, C: Codec> {
    obj: W,
    data: C,
    pend: Vec<u8>,
    ppos: usize,
    gbase: Ghost<Seq<u8>>,
}

impl<W: Sink, C: Codec> Writer<W, C> {
    /// The wrapped sink.
    pub closed spec fn sink(&self) -> W {
        self.obj
    }

    /// The engine state.
    pub closed spec fn codec(&self) -> C {
        self.data
    }

    /// Engine output produced but not yet accepted by the sink.
    pub closed spec fn pending(&self) -> Seq<u8> {
        self.pend@.skip(self.ppos as int)
    }

    /// What the sink held when it was bound.
    pub closed spec fn base(&self) -> Seq<u8> {
        self.gbase@
    }

    pub closed spec fn wf(&self) -> bool {
        &&& self.obj.inv()
        &&& self.data.inv()
        &&& self.ppos <= self.pend@.len()
        &&& self.gbase@ + self.data.out_hist() == self.obj.data() + self.pending()
    }

    /// Bind a sink and a fresh engine state.
    pub fn new(w: W, c: C) -> (r: Writer<W, C>)
        requires
            w.inv(),
            c.inv(),
            c.in_hist() == Seq::<u8>::empty(),
            c.out_hist() == Seq::<u8>::empty(),
            !c.is_finished(),
        ensures
            r.wf(),
            r.sink() == w,
            r.codec() == c,
            r.base() == w.data(),
            r.pending() == Seq::<u8>::empty(),
    {
        let r = Writer { obj: w, data: c, pend: Vec::new(), ppos: 0, gbase: Ghost(w.data()) };
        proof {
            assert(r.gbase@ + r.data.out_hist() =~= r.obj.data() + r.pending());
        }
        r
    }

    /// Forward all pending bytes to the sink, retrying partial writes. A sink
    /// that accepts nothing while bytes are pending is an error.
    fn dump(&mut self) -> (r: Result<(), Error>)
        requires
            old(self).wf(),
        ensures
            final(self).wf(),
            final(self).codec() == old(self).codec(),
            final(self).base() == old(self).base(),
            old(self).sink().data().is_prefix_of(final(self).sink().data()),
            old(self).pending() == Seq::<u8>::empty() ==> r is Ok,
            r is Ok ==> final(self).pending() == Seq::<u8>::empty(),
    {
        proof {
            assert(old(self).obj.data().take(old(self).obj.data().len() as int)
                =~= old(self).obj.data());
        }
        while self.ppos < self.pend.len()
            invariant
                self.wf(),
                self.data == old(self).data,
                self.gbase == old(self).gbase,
                old(self).obj.data().is_prefix_of(self.obj.data()),
                old(self).pending().len() > 0 || self.ppos >= self.pend@.len(),
            decreases self.pend@.len() - self.ppos,
        {
            let len = self.pend.len();
            let w = slice_subrange(self.pend.as_slice(), self.ppos, len);
            let ghost pend_pre = self.pend@;
            let ghost ppos_pre = self.ppos as int;
            let ghost data_pre = self.obj.data();
            let n = match self.obj.write(w) {
                Ok(n) => n,
                Err(e) => { return Err(e) },
            };
            if n == 0 {
                return Err(Error::WriteZero);
            }
            self.ppos = self.ppos + n;
            proof {
                lemma_prefix_append(old(self).obj.data(), data_pre, w@.take(n as int));
                assert(pend_pre.subrange(ppos_pre, pend_pre.len() as int).take(n as int)
                    =~= pend_pre.subrange(ppos_pre, ppos_pre + n));
                assert(pend_pre.skip(ppos_pre) =~= pend_pre.subrange(ppos_pre, ppos_pre + n)
                    + pend_pre.skip(ppos_pre + n));
                assert(self.gbase@ + self.data.out_hist() =~= self.obj.data() + self.pending());
            }
        }
        self.pend.clear();
        self.ppos = 0;
        proof {
            assert(self.pending() =~= Seq::<u8>::empty());
        }
        Ok(())
    }

    /// Offer `buf` to the engine; its output goes to the sink. Returns how
    /// many bytes the engine accepted: zero only for an empty `buf` or once
    /// the stream has ended.
    pub fn write(&mut self, buf: &[u8]) -> (r: Result<usize, Error>)
        requires
            old(self).wf(),
        ensures
            final(self).wf(),
            final(self).base() == old(self).base(),
            old(self).codec().out_hist().is_prefix_of(final(self).codec().out_hist()),
            old(self).sink().data().is_prefix_of(final(self).sink().data()),
            buf@.len() == 0 ==> r == Ok::<usize, Error>(0usize) && final(self).codec() == old(
                self,
            ).codec()
                && final(self).sink() == old(self).sink() && final(self).pending() == old(
                self,
            ).pending(),
            old(self).codec().is_finished() ==> final(self).codec() == old(self).codec() && (
            r is Ok ==> r == Ok::<usize, Error>(0usize)),
            C::ends_only_on_finish() ==> final(self).codec().is_finished()
                == old(self).codec().is_finished(),
            match r {
                Ok(n) => n <= buf@.len() && final(self).codec().in_hist()
                    == old(self).codec().in_hist() + buf@.take(n as int) && (n == 0 && buf@.len()
                    > 0 ==> final(self).codec().is_finished()),
                Err(_) => final(self).codec().in_hist() == old(self).codec().in_hist(),
            },
    {
        proof {
            assert(old(self).codec().out_hist().take(old(self).codec().out_hist().len() as int)
                =~= old(self).codec().out_hist());
            assert(old(self).obj.data().take(old(self).obj.data().len() as int)
                =~= old(self).obj.data());
        }
        proof {
            assert(old(self).codec().in_hist() + buf@.take(0) =~= old(self).codec().in_hist());
        }
        if buf.len() == 0 {
            return Ok(0);
        }
        if self.data.finished() {
            match self.dump() {
                Ok(()) => {},
                Err(e) => { return Err(e) },
            }
            return Ok(0);
        }
        let mut budget: usize = STALL_LIMIT;
        loop
            invariant
                self.wf(),
                self.gbase == old(self).gbase,
                self.data.in_hist() == old(self).data.in_hist(),
                old(self).data.out_hist().is_prefix_of(self.data.out_hist()),
                old(self).obj.data().is_prefix_of(self.obj.data()),
                !self.data.is_finished(),
                !old(self).data.is_finished(),
                buf@.len() > 0,
                budget >= 1,
            decreases budget,
        {
            let ghost sink_pre = self.obj.data();
            match self.dump() {
                Ok(()) => {},
                Err(e) => { return Err(e) },
            }
            proof {
                lemma_prefix_trans(old(self).obj.data(), sink_pre, self.obj.data());
            }
            let mut tmp: Vec<u8> = vec![0u8; OUT_CHUNK];
            let ghost out_pre = self.data.out_hist();
            let step = match self.data.run(buf, &mut tmp, Flush::NoFlush) {
                Ok(s) => s,
                Err(e) => { return Err(e) },
            };
            let ghost pend_pre = self.pend@;
            push_prefix(&mut self.pend, &tmp, step.produced);
            proof {
                lemma_prefix_append(
                    old(self).data.out_hist(),
                    out_pre,
                    tmp@.take(step.produced as int),
                );
                assert((pend_pre + tmp@.take(step.produced as int)).skip(self.ppos as int)
                    =~= pend_pre.skip(self.ppos as int) + tmp@.take(step.produced as int));
                assert(self.gbase@ + self.data.out_hist() =~= self.obj.data() + self.pending());
            }
            if step.consumed > 0 || step.end {
                return Ok(step.consumed);
            }
            proof {
                assert(self.data.in_hist() =~= old(self).data.in_hist());
            }
            if budget <= 1 {
                return Err(Error::Stalled);
            }
            budget = budget - 1;
        }
    }

    /// Drive the engine until everything it has buffered is emitted behind a
    /// synchronisation boundary, forward it all, and flush the sink itself.
    /// The stream stays open for more input.
    pub fn flush(&mut self) -> (r: Result<(), Error>)
        requires
            old(self).wf(),
        ensures
            final(self).wf(),
            final(self).base() == old(self).base(),
            final(self).codec().in_hist() == old(self).codec().in_hist(),
            old(self).codec().out_hist().is_prefix_of(final(self).codec().out_hist()),
            old(self).sink().data().is_prefix_of(final(self).sink().data()),
            C::ends_only_on_finish() ==> final(self).codec().is_finished()
                == old(self).codec().is_finished(),
            r is Ok ==> final(self).pending() == Seq::<u8>::empty() && final(self).sink().data()
                == final(self).base() + final(self).codec().out_hist(),
    {
        proof {
            assert(old(self).codec().out_hist().take(old(self).codec().out_hist().len() as int)
                =~= old(self).codec().out_hist());
            assert(old(self).obj.data().take(old(self).obj.data().len() as int)
                =~= old(self).obj.data());
        }
        let mut budget: usize = STALL_LIMIT;
        let mut synced = false;
        loop
            invariant
                self.wf(),
                self.gbase == old(self).gbase,
                self.data.in_hist() == old(self).data.in_hist(),
                old(self).data.out_hist().is_prefix_of(self.data.out_hist()),
                old(self).obj.data().is_prefix_of(self.obj.data()),
                C::ends_only_on_finish() ==> self.data.is_finished() == old(
                    self,
                ).data.is_finished(),
                budget >= 1,
            ensures
                self.wf(),
                self.gbase == old(self).gbase,
                self.data.in_hist() == old(self).data.in_hist(),
                old(self).data.out_hist().is_prefix_of(self.data.out_hist()),
                old(self).obj.data().is_prefix_of(self.obj.data()),
                C::ends_only_on_finish() ==> self.data.is_finished() == old(
                    self,
                ).data.is_finished(),
                self.pending() == Seq::<u8>::empty(),
            decreases budget,
        {
            let ghost sink_pre = self.obj.data();
            match self.dump() {
                Ok(()) => {},
                Err(e) => { return Err(e) },
            }
            proof {
                lemma_prefix_trans(old(self).obj.data(), sink_pre, self.obj.data());
            }
            if self.data.finished() {
                break ;
            }
            let ev: Vec<u8> = Vec::new();
            let mut tmp: Vec<u8> = vec![0u8; OUT_CHUNK];
            let fl = if synced {
                Flush::NoFlush
            } else {
                Flush::SyncFlush
            };
            let ghost in_pre = self.data.in_hist();
            let ghost out_pre = self.data.out_hist();
            let step = match self.data.run(ev.as_slice(), &mut tmp, fl) {
                Ok(s) => s,
                Err(e) => { return Err(e) },
            };
            proof {
                assert(in_pre + ev@.take(step.consumed as int) =~= in_pre);
            }
            let ghost pend_pre = self.pend@;
            push_prefix(&mut self.pend, &tmp, step.produced);
            proof {
                lemma_prefix_append(
                    old(self).data.out_hist(),
                    out_pre,
                    tmp@.take(step.produced as int),
                );
                assert((pend_pre + tmp@.take(step.produced as int)).skip(self.ppos as int)
                    =~= pend_pre.skip(self.ppos as int) + tmp@.take(step.produced as int));
                assert(self.gbase@ + self.data.out_hist() =~= self.obj.data() + self.pending());
            }
            if step.produced == 0 && synced {
                break ;
            }
            synced = true;
            if budget <= 1 {
                return Err(Error::Stalled);
            }
            budget = budget - 1;
        }
        match self.obj.flush() {
            Ok(()) => {
                proof {
                    assert(self.obj.data() + Seq::<u8>::empty() =~= self.obj.data());
                }
                Ok(())
            },
            Err(e) => Err(e),
        }
    }

    /// Drive the engine to its natural end of stream — no more input will
    /// ever be supplied — and forward all remaining output. Calling it again
    /// once finished is a successful no-op.
    pub fn finish(&mut self) -> (r: Result<(), Error>)
        requires
            old(self).wf(),
        ensures
            final(self).wf(),
            final(self).base() == old(self).base(),
            final(self).codec().in_hist() == old(self).codec().in_hist(),
            old(self).codec().out_hist().is_prefix_of(final(self).codec().out_hist()),
            old(self).sink().data().is_prefix_of(final(self).sink().data()),
            old(self).codec().is_finished() && old(self).pending() == Seq::<u8>::empty() ==> r
                == Ok::<(), Error>(()),
            r is Ok ==> final(self).codec().is_finished() && final(self).pending()
                == Seq::<u8>::empty() && final(self).sink().data() == final(self).base()
                + final(self).codec().out_hist(),
    {
        proof {
            assert(old(self).codec().out_hist().take(old(self).codec().out_hist().len() as int)
                =~= old(self).codec().out_hist());
            assert(old(self).obj.data().take(old(self).obj.data().len() as int)
                =~= old(self).obj.data());
        }
        if self.data.finished() {
            match self.dump() {
                Ok(()) => {},
                Err(e) => { return Err(e) },
            }
            proof {
                assert(self.obj.data() + Seq::<u8>::empty() =~= self.obj.data());
            }
            return Ok(());
        }
        let mut budget: usize = STALL_LIMIT;
        loop
            invariant
                self.wf(),
                self.gbase == old(self).gbase,
                self.data.in_hist() == old(self).data.in_hist(),
                old(self).data.out_hist().is_prefix_of(self.data.out_hist()),
                old(self).obj.data().is_prefix_of(self.obj.data()),
                !old(self).data.is_finished(),
                budget >= 1,
            decreases budget,
        {
            let ghost sink_pre = self.obj.data();
            match self.dump() {
                Ok(()) => {},
                Err(e) => { return Err(e) },
            }
            proof {
                lemma_prefix_trans(old(self).obj.data(), sink_pre, self.obj.data());
            }
            if self.data.finished() {
                proof {
                    assert(self.obj.data() + Seq::<u8>::empty() =~= self.obj.data());
                }
                return Ok(());
            }
            let ev: Vec<u8> = Vec::new();
            let mut tmp: Vec<u8> = vec![0u8; OUT_CHUNK];
            let ghost in_pre = self.data.in_hist();
            let ghost out_pre = self.data.out_hist();
            let step = match self.data.run(ev.as_slice(), &mut tmp, Flush::FinishFlush) {
                Ok(s) => s,
                Err(e) => { return Err(e) },
            };
            proof {
                assert(in_pre + ev@.take(step.consumed as int) =~= in_pre);
            }
            let ghost pend_pre = self.pend@;
            push_prefix(&mut self.pend, &tmp, step.produced);
            proof {
                lemma_prefix_append(
                    old(self).data.out_hist(),
                    out_pre,
                    tmp@.take(step.produced as int),
                );
                assert((pend_pre + tmp@.take(step.produced as int)).skip(self.ppos as int)
                    =~= pend_pre.skip(self.ppos as int) + tmp@.take(step.produced as int));
                assert(self.gbase@ + self.data.out_hist() =~= self.obj.data() + self.pending());
            }
            if step.produced == 0 && !step.end {
                return Err(Error::Corrupt);
            }
            if budget <= 1 {
                return Err(Error::Stalled);
            }
            budget = budget - 1;
        }
    }

    /// Reset the engine for a fresh, independent stream, re-anchoring the
    /// accounting at what the sink currently holds. Nothing may be pending.
    pub fn reset_codec(&mut self)
        requires
            old(self).wf(),
            old(self).pending() == Seq::<u8>::empty(),
        ensures
            final(self).wf(),
            final(self).sink() == old(self).sink(),
            final(self).codec().in_hist() == Seq::<u8>::empty(),
            final(self).codec().out_hist() == Seq::<u8>::empty(),
            !final(self).codec().is_finished(),
            final(self).base() == final(self).sink().data(),
            final(self).pending() == Seq::<u8>::empty(),
    {
        self.data.reset();
        self.pend.clear();
        self.ppos = 0;
        self.gbase = Ghost(self.obj.data());
        proof {
            assert(self.pending() =~= Seq::<u8>::empty());
            assert(self.gbase@ + self.data.out_hist() =~= self.obj.data() + self.pending());
        }
    }

    /// Install another sink, returning the old one. The caller resets the
    /// engine first, so nothing may be pending and no produced output
    /// unaccounted.
    pub fn replace(&mut self, w: W) -> (r: W)
        requires
            old(self).wf(),
            w.inv(),
            old(self).pending() == Seq::<u8>::empty(),
            old(self).codec().out_hist() == Seq::<u8>::empty(),
        ensures
            final(self).wf(),
            r == old(self).sink(),
            r.inv(),
            final(self).codec() == old(self).codec(),
            final(self).sink() == w,
            final(self).base() == w.data(),
            final(self).pending() == Seq::<u8>::empty(),
    {
        self.pend.clear();
        self.ppos = 0;
        let mut w2 = w;
        core::mem::swap(&mut self.obj, &mut w2);
        self.gbase = Ghost(self.obj.data());
        proof {
            assert(self.pending() =~= Seq::<u8>::empty());
            assert(self.gbase@ + self.data.out_hist() =~= self.obj.data() + self.pending());
        }
        w2
    }

    /// Borrow the wrapped sink.
    pub fn get_ref(&self) -> (r: &W)
        ensures
            *r == self.sink(),
    {
        &self.obj
    }

    /// Borrow the wrapped sink mutably. Changing what the sink holds breaks
    /// the pump's accounting; it is the caller's responsibility not to.
    pub fn get_mut(&mut self) -> (r: &mut W)
        ensures
            *r == old(self).sink(),
            final(self).sink() == *final(r),
            final(self).codec() == old(self).codec(),
            final(self).pending() == old(self).pending(),
            final(self).base() == old(self).base(),
    {
        &mut self.obj
    }

    /// Consume the pump, returning the wrapped sink.
    pub fn into_inner(self) -> (r: W)
        ensures
            r == self.sink(),
            self.wf() ==> r.inv(),
    {
        self.obj
    }

    /// The running count of bytes the engine consumed, saturated at its width.
    pub fn total_in(&self) -> (r: u64)
        requires
            self.wf(),
        ensures
            r as nat == crate::codec::clamp64(self.codec().in_hist().len()),
    {
        self.data.total_in()
    }

    /// The running count of bytes the engine produced, saturated at its width.
    pub fn total_out(&self) -> (r: u64)
        requires
            self.wf(),
        ensures
            r as nat == crate::codec::clamp64(self.codec().out_hist().len()),
    {
        self.data.total_out()
    }
}

/// After a successful flush or finish nothing is pending, and the sink then
/// holds, beyond what it held when it was bound, exactly the bytes the engine
/// produced, in order. In particular a sink that accepts only a few bytes per
/// call still receives the complete output, as many retried writes.
pub proof fn lemma_sink_receives_all_output<W: Sink, C: Codec>(p: &Writer<W, C>)
    requires
        p.wf(),
        p.pending() == Seq::<u8>::empty(),
    ensures
        p.sink().data() == p.base() + p.codec().out_hist(),
        p.sink().data().len() == p.base().len() + p.codec().out_hist().len(),
{
    assert(p.sink().data() + Seq::<u8>::empty() =~= p.sink().data());
}

/// Read until the stream ends or the source is exhausted, appending all
/// produced bytes to `out` and returning how many arrived.
pub fn read_to_end<R: BufSource, C: Codec>(obj: &mut R, data: &mut C, out: &mut Vec<u8>) -> (r:
    Result<usize, Error>)
    requires
        old(obj).inv(),
        old(data).inv(),
    ensures
        final(obj).inv(),
        final(data).inv(),
        old(obj).taken().is_prefix_of(final(obj).taken()),
        old(data).out_hist().is_prefix_of(final(data).out_hist()),
        final(data).in_hist() == old(data).in_hist() + final(obj).taken().skip(
            old(obj).taken().len() as int,
        ),
        old(data).is_finished() ==> r == Ok::<usize, Error>(0usize) && final(out)@ == old(out)@
            && *final(data) == *old(data) && *final(obj) == *old(obj),
        match r {
            Ok(n) => final(out)@ == old(out)@ + final(data).out_hist().skip(
                old(data).out_hist().len() as int,
            ) && old(out)@.len() + n == final(out)@.len() && (final(data).is_finished()
                || (final(obj).avail().len() == 0 && final(obj).at_end())),
            Err(_) => old(out)@.is_prefix_of(final(out)@),
        },
{
    let start = out.len();
    proof {
        assert(old(obj).taken().skip(old(obj).taken().len() as int) =~= Seq::<u8>::empty());
        assert(old(data).in_hist() + Seq::<u8>::empty() =~= old(data).in_hist());
        assert(old(obj).taken().take(old(obj).taken().len() as int) =~= old(obj).taken());
        assert(old(data).out_hist().take(old(data).out_hist().len() as int)
            =~= old(data).out_hist());
        assert(old(out)@ + Seq::<u8>::empty() =~= old(out)@);
        assert(old(data).out_hist().skip(old(data).out_hist().len() as int)
            =~= Seq::<u8>::empty());
        assert(old(out)@.take(old(out)@.len() as int) =~= old(out)@);
    }
    if data.finished() {
        return Ok(0);
    }
    let mut budget: usize = usize::MAX;
    loop
        invariant
            obj.inv(),
            data.inv(),
            !old(data).is_finished(),
            start == old(out)@.len(),
            old(obj).taken().is_prefix_of(obj.taken()),
            old(data).out_hist().is_prefix_of(data.out_hist()),
            data.in_hist() == old(data).in_hist() + obj.taken().skip(
                old(obj).taken().len() as int,
            ),
            out@ == old(out)@ + data.out_hist().skip(old(data).out_hist().len() as int),
            old(out)@.is_prefix_of(out@),
            budget >= 1,
        decreases budget,
    {
        let mut chunk: Vec<u8> = vec![0u8; OUT_CHUNK];
        let ghost taken_pre = obj.taken();
        let ghost in_pre = data.in_hist();
        let ghost out_pre = data.out_hist();
        let n = match read(obj, data, &mut chunk) {
            Ok(n) => n,
            Err(e) => { return Err(e) },
        };
        push_prefix(out, &chunk, n);
        proof {
            assert(taken_pre =~= obj.taken().take(taken_pre.len() as int));
            assert(obj.taken().take(old(obj).taken().len() as int) =~= taken_pre.take(
                old(obj).taken().len() as int,
            ));
            assert(obj.taken().skip(old(obj).taken().len() as int) =~= taken_pre.skip(
                old(obj).taken().len() as int,
            ) + obj.taken().skip(taken_pre.len() as int));
            lemma_prefix_append(
                old(data).out_hist(),
                out_pre,
                data.out_hist().skip(out_pre.len() as int),
            );
            assert(out_pre + data.out_hist().skip(out_pre.len() as int) =~= data.out_hist());
            assert(data.out_hist().skip(old(data).out_hist().len() as int) =~= out_pre.skip(
                old(data).out_hist().len() as int,
            ) + chunk@.take(n as int));
            assert(out@ =~= old(out)@ + data.out_hist().skip(old(data).out_hist().len() as int));
            assert(out@.take(old(out)@.len() as int) =~= old(out)@.take(old(out)@.len() as int));
            assert(old(out)@.take(old(out)@.len() as int) =~= old(out)@);
        }
        if n == 0 {
            return Ok(out.len() - start);
        }
        if budget <= 1 {
            return Err(Error::Stalled);
        }
        budget = budget - 1;
    }
}

/// Pull-mode pump: refill the buffered source when its window is empty, hand
/// the window to the engine with `dst` as the output target, and consume
/// exactly what the engine took; repeat until bytes are produced, the stream
/// ends, or the source is exhausted.
///
/// An empty `dst` is a no-op returning zero, and so is every call after the
/// stream has ended: trailing bytes in the source are never consumed.
pub fn read<R: BufSource, C: Codec>(obj: &mut R, data: &mut C, dst: &mut Vec<u8>) -> (r: Result<
    usize,
    Error,
>)
    requires
        old(obj).inv(),
        old(data).inv(),
    ensures
        final(obj).inv(),
        final(data).inv(),
        final(dst)@.len() == old(dst)@.len(),
        old(obj).taken().is_prefix_of(final(obj).taken()),
        final(data).in_hist() == old(data).in_hist() + final(obj).taken().skip(
            old(obj).taken().len() as int,
        ),
        old(dst)@.len() == 0 ==> r == Ok::<usize, Error>(0usize) && *final(data) == *old(data)
            && *final(obj) == *old(obj) && final(dst)@ == old(dst)@,
        old(data).is_finished() ==> r == Ok::<usize, Error>(0usize) && *final(data) == *old(data)
            && *final(obj) == *old(obj) && final(dst)@ == old(dst)@,
        match r {
            Ok(n) => n <= old(dst)@.len() && final(data).out_hist() == old(data).out_hist()
                + final(dst)@.take(n as int) && (n == 0 && old(dst)@.len() > 0 && !old(
                data,
            ).is_finished() ==> final(data).is_finished() || (final(obj).avail().len() == 0
                && final(obj).at_end())),
            Err(_) => final(data).out_hist() == old(data).out_hist(),
        },
{
    proof {
        assert(old(obj).taken().skip(old(obj).taken().len() as int) =~= Seq::<u8>::empty());
        assert(old(data).in_hist() + Seq::<u8>::empty() =~= old(data).in_hist());
        assert(old(data).out_hist() + Seq::<u8>::empty() =~= old(data).out_hist());
        assert(old(dst)@.take(0) =~= Seq::<u8>::empty());
    }
    if dst.len() == 0 {
        return Ok(0);
    }
    if data.finished() {
        return Ok(0);
    }
    let mut budget: usize = STALL_LIMIT;
    loop
        invariant
            obj.inv(),
            data.inv(),
            !data.is_finished(),
            dst@.len() == old(dst)@.len(),
            old(dst)@.len() > 0,
            !old(data).is_finished(),
            old(obj).taken().is_prefix_of(obj.taken()),
            data.in_hist() == old(data).in_hist() + obj.taken().skip(
                old(obj).taken().len() as int,
            ),
            data.out_hist() == old(data).out_hist(),
            budget >= 1,
        decreases budget,
    {
        let avail_n = match obj.fill() {
            Ok(n) => n,
            Err(e) => { return Err(e) },
        };
        let eof = avail_n == 0;
        let fl = if eof {
            Flush::FinishFlush
        } else {
            Flush::NoFlush
        };
        let ghost taken_pre = obj.taken();
        let ghost in_pre = data.in_hist();
        let ghost avail_pre = obj.avail();
        let w = obj.window();
        let step = match data.run(w, dst, fl) {
            Ok(s) => s,
            Err(e) => { return Err(e) },
        };
        obj.consume(step.consumed);
        proof {
            assert(taken_pre + avail_pre.take(step.consumed as int) =~= obj.taken());
            assert(old(obj).taken().is_prefix_of(obj.taken()));
            assert((old(data).in_hist() + taken_pre.skip(old(obj).taken().len() as int))
                + avail_pre.take(step.consumed as int) =~= old(data).in_hist() + obj.taken().skip(
                old(obj).taken().len() as int,
            ));
        }
        if step.produced > 0 || step.end {
            return Ok(step.produced);
        }
        proof {
            assert(dst@.take(0) =~= Seq::<u8>::empty());
            assert(old(data).out_hist() + Seq::<u8>::empty() =~= old(data).out_hist());
            assert(data.out_hist() =~= old(data).out_hist());
        }
        if eof {
            return Ok(0);
        }
        if budget <= 1 {
            return Err(Error::Stalled);
        }
        budget = budget - 1;
    }
}

} // verus!
