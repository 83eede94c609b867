//! Reading, writing and reshaping uncompressed PCM audio held in a
//! RIFF/WAVE container, with the integer side of a spectral denoiser:
//! splitting a buffer into channels, padding them for a radix-2 transform,
//! and rebuilding a buffer of the same width from the results.

pub mod bytes;
pub mod controls;
pub mod error;
pub mod fft;
pub mod progress;
pub mod samples;
pub mod wav_file;
pub mod wav_source;

pub use controls::{Command, Controls, Key};
pub use error::WavError;
pub use fft::{split_even_odd, zero_pad};
pub use progress::format_time;
pub use samples::AudioSamples;
pub use wav_file::{
    find_chunk, new_data, new_fmt, new_head, AudioFormat, WavData, WavFile, WavFmt, WavHead,
};
pub use wav_source::WavSource;
