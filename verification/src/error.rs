use vstd::prelude::*;

verus! {

/// Failures surfaced by the stream adapters.
///
/// I/O failures of the wrapped stream are propagated and never reinterpreted;
/// malformed compressed input is reported distinctly, so that a caller can
/// tell a bad transport from a bad payload.
#[derive(Clone, Copy, Debug, PartialEq, Eq, Structural)]
pub enum Error {
    /// The wrapped stream failed.
    Io,
    /// The sink accepted no bytes although bytes were pending.
    WriteZero,
    /// The compressed data is malformed, or ends before the stream does.
    Corrupt,
    /// The codec engine made no progress within the pump's iteration guard.
    Stalled,
}

} // verus!
