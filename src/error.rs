//! Failures of decoding, encoding and reshaping audio.

use vstd::prelude::*;

verus! {

/// Why a container or a sample buffer could not be read or built.
#[derive(Debug, Clone, PartialEq)]
pub enum WavError {
    /// The first four bytes are not `RIFF`; holds what was found there.
    InvalidRiffHeader(Vec<u8>),
    /// Bytes 8 to 12 are not `WAVE`; holds what was found there.
    InvalidWaveFormat(Vec<u8>),
    /// The codec is not linear PCM, or the channel count and sample width
    /// are not one of the supported pairs.
    InvalidWAudioFormat,
    /// A required chunk is missing, too short, or runs past the end.
    UnexpectedLength,
    /// Two channels that must be the same length are not.
    LengthMismatch,
}

} // verus!
