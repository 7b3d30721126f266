//! The trusted boundary to the outside DEFLATE engine.
//!
//! Everything below is believed, not verified: each item's contract states
//! only what the engine's own source shows. The engine's internal state is
//! opaque; which bytes a call produces is a fact of the engine, not of these
//! contracts, so the verified layer above models histories itself.

use vstd::prelude::*;

use crate::codec::{Flush, RunStatus};

verus! {

#[verifier::external_type_specification]
#[verifier::external_body]
pub struct ExCompressorOxide(miniz_oxide::deflate::core::CompressorOxide);

#[verifier::external_type_specification]
#[verifier::external_body]
pub struct ExInflateState(miniz_oxide::inflate::stream::InflateState);

/// Relies on miniz_oxide::deflate::core::CompressorOxide::with_params to
/// build a raw-deflate compressor (no zlib envelope) at the given level;
/// the constructor clamps the level itself.
#[verifier::external_body]
pub(crate) fn new_compressor(level: u8) -> miniz_oxide::deflate::core::CompressorOxide {
    miniz_oxide::deflate::core::CompressorOxide::with_params(
        miniz_oxide::DataFormat::Raw,
        level,
        miniz_oxide::deflate::core::CompressionStrategy::Default,
        15,
    )
}

/// Relies on miniz_oxide::deflate::core::CompressorOxide::reset, which
/// restarts the compressor for a fresh independent stream, keeping its
/// parameters and allocations.
#[verifier::external_body]
pub(crate) fn reset_compressor(c: &mut miniz_oxide::deflate::core::CompressorOxide) {
    c.reset();
}

/// Relies on miniz_oxide::inflate::stream::InflateState::new_boxed to build a
/// raw-deflate decompressor (no zlib envelope).
#[verifier::external_body]
pub(crate) fn new_inflate_state() -> Box<miniz_oxide::inflate::stream::InflateState> {
    miniz_oxide::inflate::stream::InflateState::new_boxed(miniz_oxide::DataFormat::Raw)
}

/// Relies on miniz_oxide::inflate::stream::InflateState::reset, which
/// restarts the decompressor for a fresh independent stream without
/// reallocating.
#[verifier::external_body]
pub(crate) fn reset_inflate_state(st: &mut Box<miniz_oxide::inflate::stream::InflateState>) {
    st.reset(miniz_oxide::DataFormat::Raw);
}

/// Relies on miniz_oxide::deflate::core::compress: it consumes some prefix of
/// `input`, writes at most `output.len()` bytes at the start of `output`, and
/// reports `(status, bytes consumed, bytes produced)`; `Done` means the
/// deflate stream was ended. `Done` arises only from a finish flush: the
/// compressor marks itself finished solely when the current call's flush is
/// `Finish`, and a non-finish call made after a finish is a parameter error,
/// never `Done`.
#[verifier::external_body]
pub(crate) fn deflate_chunk(
    c: &mut miniz_oxide::deflate::core::CompressorOxide,
    input: &[u8],
    output: &mut Vec<u8>,
    flush: Flush,
) -> (r: (RunStatus, usize, usize))
    ensures
        r.1 <= input@.len(),
        r.2 <= old(output)@.len(),
        final(output)@.len() == old(output)@.len(),
        flush != Flush::FinishFlush ==> r.0 != RunStatus::StreamEnd,
{
    let fl = match flush {
        Flush::NoFlush => miniz_oxide::deflate::core::TDEFLFlush::None,
        Flush::SyncFlush => miniz_oxide::deflate::core::TDEFLFlush::Sync,
        Flush::FinishFlush => miniz_oxide::deflate::core::TDEFLFlush::Finish,
    };
    let (status, consumed, produced) =
        miniz_oxide::deflate::core::compress(c, input, output.as_mut_slice(), fl);
    let st = match status {
        miniz_oxide::deflate::core::TDEFLStatus::Okay => RunStatus::Working,
        miniz_oxide::deflate::core::TDEFLStatus::Done => RunStatus::StreamEnd,
        _ => RunStatus::Failed,
    };
    (st, consumed, produced)
}

/// Relies on miniz_oxide::inflate::stream::inflate: it consumes some prefix
/// of `input`, writes at most `output.len()` bytes at the start of `output`,
/// and reports the bytes consumed and produced; `StreamEnd` means the deflate
/// stream reached its natural end, `Buf` means no progress was possible with
/// the given buffers, and a data error means malformed input.
#[verifier::external_body]
pub(crate) fn inflate_chunk(
    st: &mut Box<miniz_oxide::inflate::stream::InflateState>,
    input: &[u8],
    output: &mut Vec<u8>,
    flush: Flush,
) -> (r: (RunStatus, usize, usize))
    ensures
        r.1 <= input@.len(),
        r.2 <= old(output)@.len(),
        final(output)@.len() == old(output)@.len(),
{
    let fl = match flush {
        Flush::NoFlush => miniz_oxide::MZFlush::None,
        Flush::SyncFlush => miniz_oxide::MZFlush::Sync,
        Flush::FinishFlush => miniz_oxide::MZFlush::Finish,
    };
    let res = miniz_oxide::inflate::stream::inflate(st, input, output.as_mut_slice(), fl);
    let status = match res.status {
        Ok(miniz_oxide::MZStatus::StreamEnd) => RunStatus::StreamEnd,
        Ok(_) => RunStatus::Working,
        Err(miniz_oxide::MZError::Buf) => RunStatus::BufStall,
        Err(_) => RunStatus::Failed,
    };
    (status, res.bytes_consumed, res.bytes_written)
}

} // verus!
