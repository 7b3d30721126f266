use vstd::prelude::*;

use crate::engine;
use crate::error::Error;

verus! {

/// How an engine call should treat data buffered inside the engine.
#[derive(Clone, Copy, Debug, PartialEq, Eq, Structural)]
pub enum Flush {
    /// Normal operation: more input will follow.
    NoFlush,
    /// Emit everything buffered and a synchronisation boundary, without
    /// ending the stream.
    SyncFlush,
    /// Emit everything buffered and end the stream: no more input will ever
    /// be supplied.
    FinishFlush,
}

/// What an engine call reported.
#[derive(Clone, Copy, Debug, PartialEq, Eq, Structural)]
pub enum RunStatus {
    /// The call succeeded; the stream goes on.
    Working,
    /// The stream reached its natural end.
    StreamEnd,
    /// No progress was possible with the buffers given.
    BufStall,
    /// The engine failed; on decompression this means malformed input.
    Failed,
}

/// One engine step: bytes taken from the input, bytes placed at the start of
/// the output, and whether the stream reached its natural end.
pub struct RunStep {
    pub consumed: usize,
    pub produced: usize,
    pub end: bool,
}

/// A compression level, from 0 (stored, no compression) to 10 (slowest).
#[derive(Clone, Copy, Debug, PartialEq, Eq, Structural)]
pub struct Compression {
    pub level: u8,
}

impl Compression {
    pub fn new(level: u8) -> (r: Compression)
        requires
            level <= 10,
        ensures
            r.level == level,
    {
        Compression { level }
    }

    /// Stored blocks only.
    pub fn no_compression() -> (r: Compression)
        ensures
            r.level == 0,
    {
        Compression { level: 0 }
    }

    /// The fastest real compression.
    pub fn fast() -> (r: Compression)
        ensures
            r.level == 1,
    {
        Compression { level: 1 }
    }

    /// The strongest standard compression.
    pub fn best() -> (r: Compression)
        ensures
            r.level == 9,
    {
        Compression { level: 9 }
    }
}

impl Default for Compression {
    /// The usual speed/size compromise.
    fn default() -> (r: Compression)
        ensures
            r.level == 6,
    {
        Compression { level: 6 }
    }
}

/// `n`, saturated at the largest value a byte counter can report.
pub open spec fn clamp64(n: nat) -> nat {
    if n > u64::MAX as nat {
        u64::MAX as nat
    } else {
        n
    }
}

/// Add with saturation, so that a byte counter never wraps.
fn sat_add64(a: u64, b: u64) -> (r: u64)
    ensures
        r as nat == clamp64(a as nat + b as nat),
{
    if b <= u64::MAX - a {
        a + b
    } else {
        u64::MAX
    }
}

/// One direction of the codec engine, as the stream pump sees it.
///
/// The histories are the ground truth of the model: `in_hist` is every byte
/// the engine has accepted and `out_hist` every byte it has handed back,
/// since creation or the last `reset`. Which output bytes a step yields is
/// the engine's own affair; the contracts promise only that the histories
/// grow by exactly what the step consumed and produced, in order.
pub trait Codec: Sized {
    /// All bytes consumed since creation or the last reset.
    spec fn in_hist(&self) -> Seq<u8>;

    /// All bytes produced since creation or the last reset.
    spec fn out_hist(&self) -> Seq<u8>;

    /// Whether the stream has reached its natural end.
    spec fn is_finished(&self) -> bool;

    /// Whether this direction of the engine can end the stream only when
    /// asked to finish it (true of the compressor; a decompressor finds the
    /// stream's end in the data).
    spec fn ends_only_on_finish() -> bool;

    /// Well-formedness.
    spec fn inv(&self) -> bool;

    fn finished(&self) -> (r: bool)
        requires
            self.inv(),
        ensures
            r == self.is_finished(),
    ;

    /// Drive the engine once over the given buffers.
    fn run(&mut self, input: &[u8], output: &mut Vec<u8>, flush: Flush) -> (r: Result<
        RunStep,
        Error,
    >)
        requires
            old(self).inv(),
            !old(self).is_finished(),
        ensures
            final(self).inv(),
            final(output)@.len() == old(output)@.len(),
            match r {
                Ok(step) => step.consumed <= input@.len() && step.produced <= old(output)@.len()
                    && final(self).in_hist() == old(self).in_hist() + input@.take(
                    step.consumed as int,
                ) && final(self).out_hist() == old(self).out_hist() + final(output)@.take(
                    step.produced as int,
                ) && final(self).is_finished() == step.end && (Self::ends_only_on_finish()
                    && flush != Flush::FinishFlush ==> !step.end),
                Err(_) => final(self).in_hist() == old(self).in_hist() && final(self).out_hist()
                    == old(self).out_hist() && !final(self).is_finished(),
            },
    ;

    /// Restart for a fresh, independent stream.
    fn reset(&mut self)
        requires
            old(self).inv(),
        ensures
            final(self).inv(),
            final(self).in_hist() == Seq::<u8>::empty(),
            final(self).out_hist() == Seq::<u8>::empty(),
            !final(self).is_finished(),
    ;

    /// The running count of bytes consumed, saturated at its width.
    fn total_in(&self) -> (r: u64)
        requires
            self.inv(),
        ensures
            r as nat == clamp64(self.in_hist().len()),
    ;

    /// The running count of bytes produced, saturated at its width.
    fn total_out(&self) -> (r: u64)
        requires
            self.inv(),
        ensures
            r as nat == clamp64(self.out_hist().len()),
    ;
}

/// The compressing direction of the engine.
pub struct Compress {
    eng: miniz_oxide::deflate::core::CompressorOxide,
    tin: u64,
    tout: u64,
    fin: bool,
    hin: Ghost<Seq<u8>>,
    hout: Ghost<Seq<u8>>,
}

impl Compress {
    pub fn new(level: Compression) -> (r: Compress)
        ensures
            r.inv(),
            r.in_hist() == Seq::<u8>::empty(),
            r.out_hist() == Seq::<u8>::empty(),
            !r.is_finished(),
    {
        Compress {
            eng: engine::new_compressor(level.level),
            tin: 0,
            tout: 0,
            fin: false,
            hin: Ghost(Seq::empty()),
            hout: Ghost(Seq::empty()),
        }
    }
}

impl Codec for Compress {
    closed spec fn in_hist(&self) -> Seq<u8> {
        self.hin@
    }

    open spec fn ends_only_on_finish() -> bool {
        true
    }

    closed spec fn out_hist(&self) -> Seq<u8> {
        self.hout@
    }

    closed spec fn is_finished(&self) -> bool {
        self.fin
    }

    closed spec fn inv(&self) -> bool {
        self.tin as nat == clamp64(self.hin@.len()) && self.tout as nat == clamp64(
            self.hout@.len(),
        )
    }

    fn finished(&self) -> (r: bool) {
        self.fin
    }

    fn run(&mut self, input: &[u8], output: &mut Vec<u8>, flush: Flush) -> (r: Result<
        RunStep,
        Error,
    >) {
        let (st, consumed, produced) = engine::deflate_chunk(&mut self.eng, input, output, flush);
        if st == RunStatus::Failed {
            // The compressor fails only on misuse (a call after the stream was
            // finished, or bad parameters), never on the data; the pump's call
            // discipline makes this unreachable, and it is reported as a
            // refusal to make progress rather than as corrupt data.
            return Err(Error::Stalled);
        }
        let end = st == RunStatus::StreamEnd;
        self.tin = sat_add64(self.tin, consumed as u64);
        self.tout = sat_add64(self.tout, produced as u64);
        if end {
            self.fin = true;
        }
        self.hin = Ghost(self.hin@ + input@.take(consumed as int));
        self.hout = Ghost(self.hout@ + output@.take(produced as int));
        Ok(RunStep { consumed, produced, end })
    }

    fn reset(&mut self) {
        engine::reset_compressor(&mut self.eng);
        self.tin = 0;
        self.tout = 0;
        self.fin = false;
        self.hin = Ghost(Seq::empty());
        self.hout = Ghost(Seq::empty());
    }

    fn total_in(&self) -> (r: u64) {
        self.tin
    }

    fn total_out(&self) -> (r: u64) {
        self.tout
    }
}

/// The decompressing direction of the engine.
pub struct Decompress {
    eng: Box<miniz_oxide::inflate::stream::InflateState>,
    tin: u64,
    tout: u64,
    fin: bool,
    hin: Ghost<Seq<u8>>,
    hout: Ghost<Seq<u8>>,
}

impl Decompress {
    pub fn new() -> (r: Decompress)
        ensures
            r.inv(),
            r.in_hist() == Seq::<u8>::empty(),
            r.out_hist() == Seq::<u8>::empty(),
            !r.is_finished(),
    {
        Decompress {
            eng: engine::new_inflate_state(),
            tin: 0,
            tout: 0,
            fin: false,
            hin: Ghost(Seq::empty()),
            hout: Ghost(Seq::empty()),
        }
    }
}

impl Codec for Decompress {
    closed spec fn in_hist(&self) -> Seq<u8> {
        self.hin@
    }

    open spec fn ends_only_on_finish() -> bool {
        false
    }

    closed spec fn out_hist(&self) -> Seq<u8> {
        self.hout@
    }

    closed spec fn is_finished(&self) -> bool {
        self.fin
    }

    closed spec fn inv(&self) -> bool {
        self.tin as nat == clamp64(self.hin@.len()) && self.tout as nat == clamp64(
            self.hout@.len(),
        )
    }

    fn finished(&self) -> (r: bool) {
        self.fin
    }

    fn run(&mut self, input: &[u8], output: &mut Vec<u8>, flush: Flush) -> (r: Result<
        RunStep,
        Error,
    >) {
        let (st, consumed, produced) = engine::inflate_chunk(&mut self.eng, input, output, flush);
        if st == RunStatus::Failed {
            return Err(Error::Corrupt);
        }
        let end = st == RunStatus::StreamEnd;
        self.tin = sat_add64(self.tin, consumed as u64);
        self.tout = sat_add64(self.tout, produced as u64);
        if end {
            self.fin = true;
        }
        self.hin = Ghost(self.hin@ + input@.take(consumed as int));
        self.hout = Ghost(self.hout@ + output@.take(produced as int));
        Ok(RunStep { consumed, produced, end })
    }

    fn reset(&mut self) {
        engine::reset_inflate_state(&mut self.eng);
        self.tin = 0;
        self.tout = 0;
        self.fin = false;
        self.hin = Ghost(Seq::empty());
        self.hout = Ghost(Seq::empty());
    }

    fn total_in(&self) -> (r: u64) {
        self.tin
    }

    fn total_out(&self) -> (r: u64) {
        self.tout
    }
}

} // verus!
