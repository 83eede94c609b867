//! A decoded file as one stream of 16-bit samples for playback.

use crate::samples::AudioSamples;
use crate::wav_file::WavFile;
use vstd::prelude::*;

verus! {

/// A sample of a `bits`-bit buffer as a 16-bit playback sample: 8-bit
/// samples are scaled up by 256, 16-bit ones kept, 32-bit ones clamped to
/// the 16-bit range.
pub open spec fn playback_value(x: int, bits: nat) -> int {
    if bits == 8 {
        x * 256
    } else if bits == 16 {
        x
    } else if x < -0x8000 {
        -0x8000
    } else if x > 0x7fff {
        0x7fff
    } else {
        x
    }
}

/// Interleaved 16-bit samples with the layout they are played in.
#[derive(Debug, Clone, PartialEq)]
pub struct WavSource {
    pub samples: Vec<i16>,
    pub sample_rate: u32,
    pub channels: u16,
}

fn clamp_i32_to_i16(v: i32) -> (r: i16)
    ensures
        r == playback_value(v as int, 32),
{
    if v < -0x8000 {
        -0x8000
    } else if v > 0x7fff {
        0x7fff
    } else {
        v as i16
    }
}

fn convert_i8_to_i16(v: i8) -> (r: i16)
    ensures
        r == playback_value(v as int, 8),
{
    (v as i16) * 256
}

impl WavSource {
    /// The file's samples for playback, at its sample rate and channel count.
    pub fn from_wav_file(wav: WavFile) -> (r: WavSource)
        ensures
            r.samples@.len() == wav.data.data.values().len(),
            forall|i: int|
                0 <= i < r.samples@.len() ==> r.samples@[i] == playback_value(
                    #[trigger] wav.data.data.values()[i],
                    wav.data.data.bits(),
                ),
            r.sample_rate == wav.fmt.sample_rate,
            r.channels == wav.fmt.num_channels,
    {
        let sample_rate = wav.fmt.sample_rate;
        let channels = wav.fmt.num_channels;
        WavSource { samples: WavSource::from_audio_samples(wav.data.data), sample_rate, channels }
    }

    /// Every sample as a 16-bit playback sample, stereo frames interleaved.
    pub fn from_audio_samples(samples: AudioSamples) -> (r: Vec<i16>)
        ensures
            r@.len() == samples.values().len(),
            forall|i: int|
                0 <= i < r@.len() ==> r@[i] == playback_value(
                    #[trigger] samples.values()[i],
                    samples.bits(),
                ),
    {
        let mut out: Vec<i16> = Vec::new();
        match samples {
            AudioSamples::MonoI8(v) => {
                let mut i: usize = 0;
                while i < v.len()
                    invariant
                        i <= v@.len(),
                        out@.len() == i,
                        forall|k: int| 0 <= k < i ==> out@[k] == playback_value(v@[k] as int, 8),
                    decreases v@.len() - i,
                {
                    out.push(convert_i8_to_i16(v[i]));
                    i += 1;
                }
            },
            AudioSamples::StereoI8(v) => {
                let mut i: usize = 0;
                while i < v.len()
                    invariant
                        i <= v@.len(),
                        out@.len() == 2 * i,
                        forall|k: int|
                            0 <= k < out@.len() ==> out@[k] == playback_value(v@[k / 2]@[k % 2] as int, 8),
                    decreases v@.len() - i,
                {
                    out.push(convert_i8_to_i16(v[i][0]));
                    out.push(convert_i8_to_i16(v[i][1]));
                    i += 1;
                }
            },
            AudioSamples::MonoI16(v) => {
                let mut i: usize = 0;
                while i < v.len()
                    invariant
                        i <= v@.len(),
                        out@.len() == i,
                        forall|k: int| 0 <= k < i ==> out@[k] == v@[k],
                    decreases v@.len() - i,
                {
                    out.push(v[i]);
                    i += 1;
                }
            },
            AudioSamples::StereoI16(v) => {
                let mut i: usize = 0;
                while i < v.len()
                    invariant
                        i <= v@.len(),
                        out@.len() == 2 * i,
                        forall|k: int| 0 <= k < out@.len() ==> out@[k] == v@[k / 2]@[k % 2],
                    decreases v@.len() - i,
                {
                    out.push(v[i][0]);
                    out.push(v[i][1]);
                    i += 1;
                }
            },
            AudioSamples::MonoI32(v) => {
                let mut i: usize = 0;
                while i < v.len()
                    invariant
                        i <= v@.len(),
                        out@.len() == i,
                        forall|k: int| 0 <= k < i ==> out@[k] == playback_value(v@[k] as int, 32),
                    decreases v@.len() - i,
                {
                    out.push(clamp_i32_to_i16(v[i]));
                    i += 1;
                }
            },
            AudioSamples::StereoI32(v) => {
                let mut i: usize = 0;
                while i < v.len()
                    invariant
                        i <= v@.len(),
                        out@.len() == 2 * i,
                        forall|k: int|
                            0 <= k < out@.len() ==> out@[k] == playback_value(v@[k / 2]@[k % 2] as int, 32),
                    decreases v@.len() - i,
                {
                    out.push(clamp_i32_to_i16(v[i][0]));
                    out.push(clamp_i32_to_i16(v[i][1]));
                    i += 1;
                }
            },
        }
        out
    }
}

} // verus!
