//! Streaming adapters for a chunked raw-DEFLATE codec engine.
//!
//! The codec engine itself (the LZ77/Huffman transformation) is an outside
//! collaborator; what this crate provides, and verifies, is the stream pump:
//! the protocol that drives the engine incrementally across arbitrarily sized
//! read and write calls, buffers intermediate output, detects end of stream,
//! and exposes four adapter shapes (compress or decompress, while reading or
//! while writing), each with flush, finish and reset operations.

pub mod bufread;
pub mod codec;
pub mod deflate;
pub mod engine;
pub mod pump;
pub mod error;
pub mod stream;
