//! Streaming adapters around a heatshrink compression engine: pull streams
//! that compress or decompress one byte at a time, and encoders that fill a
//! destination of fixed capacity without ever writing past it.
use vstd::prelude::*;

pub mod engine;
pub mod source;
pub mod value;
pub mod decoder;
pub mod encoder;
pub mod encoder_to;
pub mod encoder_to_vec;

verus! {

/// A compressed constant together with the length of the data it holds.
pub struct CompressedData<'a> {
    /// The compressed bytes.
    pub data: &'a [u8],
    /// The length of the data before compression.
    pub original_size: usize,
}

} // verus!
