//! Sample buffers: six variants, by channel count and sample width.

use crate::bytes::{le_u16, le_u32};
use crate::error::WavError;
use vstd::arithmetic::div_mod::lemma_fundamental_div_mod_converse;
use vstd::prelude::*;

verus! {

/// Whether `channels` channels of `bits`-bit samples is a layout this
/// library reads and writes.
pub open spec fn supported(channels: int, bits: int) -> bool {
    (channels == 1 || channels == 2) && (bits == 8 || bits == 16 || bits == 32)
}

/// Number of distinct values of a `width`-byte integer.
pub open spec fn modulus(width: nat) -> int {
    if width == 1 {
        0x100
    } else if width == 2 {
        0x10000
    } else {
        0x1_0000_0000
    }
}

/// Weight of byte `k` of a little-endian integer.
pub open spec fn place(k: int) -> int {
    if k == 0 {
        1
    } else if k == 1 {
        0x100
    } else if k == 2 {
        0x10000
    } else {
        0x100_0000
    }
}

/// Whether `x` fits a signed `width`-byte integer.
pub open spec fn in_range(x: int, width: nat) -> bool {
    -modulus(width) / 2 <= x < modulus(width) / 2
}

/// The unsigned value of the `width` bytes at offset `i`.
pub open spec fn unsigned_at(b: Seq<u8>, i: int, width: nat) -> int {
    if width == 1 {
        b[i] as int
    } else if width == 2 {
        le_u16(b, i)
    } else {
        le_u32(b, i)
    }
}

/// The two's-complement reading of the unsigned `width`-byte value `u`.
pub open spec fn signed_value(u: int, width: nat) -> int {
    if u < modulus(width) / 2 {
        u
    } else {
        u - modulus(width)
    }
}

/// Sample number `i` of bytes that hold `width`-byte samples back to back.
pub open spec fn sample_at(b: Seq<u8>, width: nat, i: int) -> int {
    signed_value(unsigned_at(b, i * width, width), width)
}

/// The interleaved samples that a data region holds: every whole frame of
/// `channels` samples, a trailing partial frame dropped.
pub open spec fn decoded(b: Seq<u8>, channels: nat, width: nat) -> Seq<int> {
    Seq::new((b.len() / (channels * width)) * channels, |i: int| sample_at(b, width, i))
}

/// Byte `k` of the little-endian two's-complement form of `x`.
pub open spec fn sample_byte(x: int, width: nat, k: int) -> u8 {
    (((x % modulus(width)) / place(k)) % 256) as u8
}

/// The little-endian two's-complement bytes of `x`.
pub open spec fn sample_bytes(x: int, width: nat) -> Seq<u8> {
    Seq::new(width, |k: int| sample_byte(x, width, k))
}

/// The data region holding `values`, each `width` bytes wide.
pub open spec fn encoded(values: Seq<int>, width: nat) -> Seq<u8> {
    Seq::new(values.len() * width, |j: int| sample_byte(values[j / width as int], width, j % width as int))
}

/// Decoded audio: mono samples, or stereo frames of left and right.
#[derive(Debug, Clone, PartialEq)]
pub enum AudioSamples {
    MonoI8(Vec<i8>),
    StereoI8(Vec<[i8; 2]>),
    MonoI16(Vec<i16>),
    StereoI16(Vec<[i16; 2]>),
    MonoI32(Vec<i32>),
    StereoI32(Vec<[i32; 2]>),
}

/// Stereo frames as one interleaved sequence: left, right, left, ...
pub open spec fn interleave<T>(frames: Seq<[T; 2]>, f: spec_fn(T) -> int) -> Seq<int> {
    Seq::new(2 * frames.len(), |i: int| f(frames[i / 2]@[i % 2]))
}

impl AudioSamples {
    /// 1 for the mono variants, 2 for the stereo ones.
    pub open spec fn channel_count(&self) -> nat {
        match self {
            AudioSamples::MonoI8(_) | AudioSamples::MonoI16(_) | AudioSamples::MonoI32(_) => 1,
            _ => 2,
        }
    }

    /// Bits per sample: 8, 16 or 32.
    pub open spec fn bits(&self) -> nat {
        match self {
            AudioSamples::MonoI8(_) | AudioSamples::StereoI8(_) => 8,
            AudioSamples::MonoI16(_) | AudioSamples::StereoI16(_) => 16,
            _ => 32,
        }
    }

    /// Bytes per sample.
    pub open spec fn width(&self) -> nat {
        self.bits() / 8
    }

    /// Every sample, stereo frames interleaved left then right.
    pub open spec fn values(&self) -> Seq<int> {
        match self {
            AudioSamples::MonoI8(v) => v@.map_values(|x: i8| x as int),
            AudioSamples::StereoI8(v) => interleave(v@, |x: i8| x as int),
            AudioSamples::MonoI16(v) => v@.map_values(|x: i16| x as int),
            AudioSamples::StereoI16(v) => interleave(v@, |x: i16| x as int),
            AudioSamples::MonoI32(v) => v@.map_values(|x: i32| x as int),
            AudioSamples::StereoI32(v) => interleave(v@, |x: i32| x as int),
        }
    }
}

fn i8_from_byte(b: u8) -> (r: i8)
    ensures
        r == signed_value(b as int, 1),
{
    if b < 128 {
        b as i8
    } else {
        (b as i16 - 256) as i8
    }
}

fn i16_at(b: &[u8], i: usize) -> (r: i16)
    requires
        i + 2 <= b@.len(),
    ensures
        r == signed_value(le_u16(b@, i as int), 2),
{
    let u: u16 = crate::bytes::read_u16_le(b, i);
    if u < 0x8000 {
        u as i16
    } else {
        (u as i32 - 0x10000) as i16
    }
}

fn i32_at(b: &[u8], i: usize) -> (r: i32)
    requires
        i + 4 <= b@.len(),
    ensures
        r == signed_value(le_u32(b@, i as int), 4),
{
    let u: u32 = crate::bytes::read_u32_le(b, i);
    if u < 0x8000_0000 {
        u as i32
    } else {
        (u as i64 - 0x1_0000_0000) as i32
    }
}

fn push_i8(out: &mut Vec<u8>, x: i8)
    ensures
        final(out)@ == old(out)@ + sample_bytes(x as int, 1),
{
    let u: u8 = if x >= 0 {
        x as u8
    } else {
        (x as i16 + 0x100) as u8
    };
    out.push(u);
    assert(final(out)@ =~= old(out)@ + sample_bytes(x as int, 1));
}

fn push_i16(out: &mut Vec<u8>, x: i16)
    ensures
        final(out)@ == old(out)@ + sample_bytes(x as int, 2),
{
    let u: u16 = if x >= 0 {
        x as u16
    } else {
        (x as i32 + 0x10000) as u16
    };
    out.push((u % 256) as u8);
    out.push((u / 256) as u8);
    assert(final(out)@ =~= old(out)@ + sample_bytes(x as int, 2));
}

fn push_i32(out: &mut Vec<u8>, x: i32)
    ensures
        final(out)@ == old(out)@ + sample_bytes(x as int, 4),
{
    let u: u32 = if x >= 0 {
        x as u32
    } else {
        (x as i64 + 0x1_0000_0000) as u32
    };
    out.push((u % 256) as u8);
    out.push(((u / 256) % 256) as u8);
    out.push(((u / 65536) % 256) as u8);
    out.push((u / 16777216) as u8);
    assert(final(out)@ =~= old(out)@ + sample_bytes(x as int, 4));
}

impl AudioSamples {
    /// Reads a data region of `num_channels` channels of `bits_per_sample`-bit
    /// little-endian two's-complement samples.
    pub fn from_le_bytes(audio_data: &[u8], num_channels: u16, bits_per_sample: u16) -> (r: Result<
        AudioSamples,
        WavError,
    >)
        ensures
            r is Ok <==> supported(num_channels as int, bits_per_sample as int),
            r matches Ok(s) ==> {
                &&& s.channel_count() == num_channels
                &&& s.bits() == bits_per_sample
                &&& s.values() == decoded(audio_data@, num_channels as nat, (bits_per_sample / 8) as nat)
            },
            r matches Err(e) ==> e is InvalidWAudioFormat,
    {
        if num_channels == 1 && bits_per_sample == 8 {
            let mut out: Vec<i8> = Vec::new();
            let mut i: usize = 0;
            while i < audio_data.len()
                invariant
                    i <= audio_data@.len(),
                    out@.len() == i,
                    forall|k: int| 0 <= k < i ==> out@[k] == sample_at(audio_data@, 1, k),
                decreases audio_data@.len() - i,
            {
                out.push(i8_from_byte(audio_data[i]));
                i += 1;
            }
            let s = AudioSamples::MonoI8(out);
            assert(audio_data@.len() / (1 * 1) * 1 == audio_data@.len()) by (nonlinear_arith);
            assert(s.values() =~= decoded(audio_data@, 1, 1));
            Ok(s)
        } else if num_channels == 1 && bits_per_sample == 16 {
            let len: usize = audio_data.len();
            let n: usize = len / 2;
            let mut out: Vec<i16> = Vec::new();
            let mut i: usize = 0;
            while i < n
                invariant
                    len == audio_data@.len(),
                    n == len / 2,
                    i <= n,
                    out@.len() == i,
                    forall|k: int| 0 <= k < i ==> out@[k] == sample_at(audio_data@, 2, k),
                decreases n - i,
            {
                assert(2 * i + 2 <= audio_data@.len());
                out.push(i16_at(audio_data, 2 * i));
                i += 1;
            }
            let s = AudioSamples::MonoI16(out);
            assert(audio_data@.len() / (1 * 2) * 1 == audio_data@.len() / 2) by (nonlinear_arith);
            assert(s.values() =~= decoded(audio_data@, 1, 2));
            Ok(s)
        } else if num_channels == 2 && bits_per_sample == 8 {
            let len: usize = audio_data.len();
            let n: usize = len / 2;
            let mut out: Vec<[i8; 2]> = Vec::new();
            let mut i: usize = 0;
            while i < n
                invariant
                    len == audio_data@.len(),
                    n == len / 2,
                    i <= n,
                    out@.len() == i,
                    forall|k: int|
                        0 <= k < i ==> out@[k]@[0] == sample_at(audio_data@, 1, 2 * k) && out@[k]@[1]
                            == sample_at(audio_data@, 1, 2 * k + 1),
                decreases n - i,
            {
                assert(2 * i + 2 <= audio_data@.len());
                let frame = [i8_from_byte(audio_data[2 * i]), i8_from_byte(audio_data[2 * i + 1])];
                out.push(frame);
                i += 1;
            }
            let s = AudioSamples::StereoI8(out);
            assert(audio_data@.len() / (2 * 1) * 2 == 2 * n) by (nonlinear_arith)
                requires
                    n == audio_data@.len() / 2,
            ;
            assert(s.values() =~= decoded(audio_data@, 2, 1));
            Ok(s)
        } else if num_channels == 2 && bits_per_sample == 16 {
            let len: usize = audio_data.len();
            let n: usize = len / 4;
            let mut out: Vec<[i16; 2]> = Vec::new();
            let mut i: usize = 0;
            while i < n
                invariant
                    len == audio_data@.len(),
                    n == len / 4,
                    i <= n,
                    out@.len() == i,
                    forall|k: int|
                        0 <= k < i ==> out@[k]@[0] == sample_at(audio_data@, 2, 2 * k) && out@[k]@[1]
                            == sample_at(audio_data@, 2, 2 * k + 1),
                decreases n - i,
            {
                assert(4 * i + 4 <= audio_data@.len());
                let frame = [i16_at(audio_data, 4 * i), i16_at(audio_data, 4 * i + 2)];
                out.push(frame);
                i += 1;
            }
            let s = AudioSamples::StereoI16(out);
            assert(audio_data@.len() / (2 * 2) * 2 == 2 * n) by (nonlinear_arith)
                requires
                    n == audio_data@.len() / 4,
            ;
            assert(s.values() =~= decoded(audio_data@, 2, 2));
            Ok(s)
        } else if num_channels == 1 && bits_per_sample == 32 {
            let len: usize = audio_data.len();
            let n: usize = len / 4;
            let mut out: Vec<i32> = Vec::new();
            let mut i: usize = 0;
            while i < n
                invariant
                    len == audio_data@.len(),
                    n == len / 4,
                    i <= n,
                    out@.len() == i,
                    forall|k: int| 0 <= k < i ==> out@[k] == sample_at(audio_data@, 4, k),
                decreases n - i,
            {
                assert(4 * i + 4 <= audio_data@.len());
                out.push(i32_at(audio_data, 4 * i));
                i += 1;
            }
            let s = AudioSamples::MonoI32(out);
            assert(audio_data@.len() / (1 * 4) * 1 == audio_data@.len() / 4) by (nonlinear_arith);
            assert(s.values() =~= decoded(audio_data@, 1, 4));
            Ok(s)
        } else if num_channels == 2 && bits_per_sample == 32 {
            let len: usize = audio_data.len();
            let n: usize = len / 8;
            let mut out: Vec<[i32; 2]> = Vec::new();
            let mut i: usize = 0;
            while i < n
                invariant
                    len == audio_data@.len(),
                    n == len / 8,
                    i <= n,
                    out@.len() == i,
                    forall|k: int|
                        0 <= k < i ==> out@[k]@[0] == sample_at(audio_data@, 4, 2 * k) && out@[k]@[1]
                            == sample_at(audio_data@, 4, 2 * k + 1),
                decreases n - i,
            {
                assert(8 * i + 8 <= audio_data@.len());
                let frame = [i32_at(audio_data, 8 * i), i32_at(audio_data, 8 * i + 4)];
                out.push(frame);
                i += 1;
            }
            let s = AudioSamples::StereoI32(out);
            assert(audio_data@.len() / (2 * 4) * 2 == 2 * n) by (nonlinear_arith)
                requires
                    n == audio_data@.len() / 8,
            ;
            assert(s.values() =~= decoded(audio_data@, 2, 4));
            Ok(s)
        } else {
            Err(WavError::InvalidWAudioFormat)
        }
    }
}

impl AudioSamples {
    /// The data region that holds these samples: each one little-endian,
    /// two's complement, stereo frames left then right.
    pub fn to_le_bytes_vector(&self) -> (r: Vec<u8>)
        ensures
            r@ == encoded(self.values(), self.width()),
    {
        let mut out: Vec<u8> = Vec::new();
        match self {
            AudioSamples::MonoI8(v) => {
                let mut i: usize = 0;
                while i < v.len()
                    invariant
                        i <= v@.len(),
                        out@.len() == i,
                        forall|j: int| 0 <= j < out@.len() ==> out@[j] == sample_byte(v@[j] as int, 1, 0),
                    decreases v@.len() - i,
                {
                    push_i8(&mut out, v[i]);
                    i += 1;
                }
                assert(out@ =~= encoded(self.values(), 1));
            },
            AudioSamples::StereoI8(v) => {
                let mut i: usize = 0;
                while i < v.len()
                    invariant
                        i <= v@.len(),
                        out@.len() == 2 * i,
                        forall|j: int|
                            0 <= j < out@.len() ==> out@[j] == sample_byte(v@[j / 2]@[j % 2] as int, 1, 0),
                    decreases v@.len() - i,
                {
                    push_i8(&mut out, v[i][0]);
                    push_i8(&mut out, v[i][1]);
                    i += 1;
                }
                assert(out@ =~= encoded(self.values(), 1));
            },
            AudioSamples::MonoI16(v) => {
                let mut i: usize = 0;
                while i < v.len()
                    invariant
                        i <= v@.len(),
                        out@.len() == 2 * i,
                        forall|j: int|
                            0 <= j < out@.len() ==> out@[j] == sample_byte(v@[j / 2] as int, 2, j % 2),
                    decreases v@.len() - i,
                {
                    push_i16(&mut out, v[i]);
                    i += 1;
                }
                assert(out@ =~= encoded(self.values(), 2));
            },
            AudioSamples::StereoI16(v) => {
                let mut i: usize = 0;
                while i < v.len()
                    invariant
                        i <= v@.len(),
                        out@.len() == 4 * i,
                        forall|j: int|
                            0 <= j < out@.len() ==> out@[j] == sample_byte(
                                v@[j / 4]@[(j / 2) % 2] as int,
                                2,
                                j % 2,
                            ),
                    decreases v@.len() - i,
                {
                    push_i16(&mut out, v[i][0]);
                    push_i16(&mut out, v[i][1]);
                    i += 1;
                }
                assert(out@ =~= encoded(self.values(), 2));
            },
            AudioSamples::MonoI32(v) => {
                let mut i: usize = 0;
                while i < v.len()
                    invariant
                        i <= v@.len(),
                        out@.len() == 4 * i,
                        forall|j: int|
                            0 <= j < out@.len() ==> out@[j] == sample_byte(v@[j / 4] as int, 4, j % 4),
                    decreases v@.len() - i,
                {
                    push_i32(&mut out, v[i]);
                    i += 1;
                }
                assert(out@ =~= encoded(self.values(), 4));
            },
            AudioSamples::StereoI32(v) => {
                let mut i: usize = 0;
                while i < v.len()
                    invariant
                        i <= v@.len(),
                        out@.len() == 8 * i,
                        forall|j: int|
                            0 <= j < out@.len() ==> out@[j] == sample_byte(
                                v@[j / 8]@[(j / 4) % 2] as int,
                                4,
                                j % 4,
                            ),
                    decreases v@.len() - i,
                {
                    push_i32(&mut out, v[i][0]);
                    push_i32(&mut out, v[i][1]);
                    i += 1;
                }
                assert(out@ =~= encoded(self.values(), 4));
            },
        }
        out
    }
}

/// Reading back the bytes of one sample gives the sample.
proof fn lemma_sample_bytes_read(x: int, width: nat)
    requires
        width == 1 || width == 2 || width == 4,
        in_range(x, width),
    ensures
        signed_value(unsigned_at(sample_bytes(x, width), 0, width), width) == x,
{
    let b = sample_bytes(x, width);
    let u = x % modulus(width);
    assert(0 <= u < modulus(width));
    if x >= 0 {
        lemma_fundamental_div_mod_converse(x, modulus(width), 0, x);
    } else {
        lemma_fundamental_div_mod_converse(x, modulus(width), -1, x + modulus(width));
    }
    if width == 2 {
        assert(u == u % 256 + 256 * ((u / 256) % 256)) by (nonlinear_arith)
            requires
                0 <= u < 0x10000,
        ;
        assert(unsigned_at(b, 0, width) == u);
    } else if width == 4 {
        assert(u == u % 256 + 256 * ((u / 256) % 256) + 65536 * ((u / 65536) % 256) + 16777216 * ((u
            / 16777216) % 256)) by (nonlinear_arith)
            requires
                0 <= u < 0x1_0000_0000,
        ;
        assert(unsigned_at(b, 0, width) == u);
    } else {
        assert(unsigned_at(b, 0, width) == u);
    }
}

/// The samples stored by `encoded` are found again at their own offsets.
proof fn lemma_encoded_sample(values: Seq<int>, width: nat, i: int)
    requires
        width == 1 || width == 2 || width == 4,
        0 <= i < values.len(),
        in_range(values[i], width),
    ensures
        sample_at(encoded(values, width), width, i) == values[i],
{
    let e = encoded(values, width);
    let b = sample_bytes(values[i], width);
    assert(i * width + width <= values.len() * width) by (nonlinear_arith)
        requires
            i < values.len(),
    ;
    assert forall|k: int| 0 <= k < width implies e[i * width + k] == b[k] by {
        lemma_fundamental_div_mod_converse(i * width + k, width as int, i, k);
    }
    assert(unsigned_at(e, i * width, width) == unsigned_at(b, 0, width));
    lemma_sample_bytes_read(values[i], width);
}

/// Decoding the data region written for whole frames of in-range samples
/// gives the samples back.
pub proof fn lemma_decode_encoded(values: Seq<int>, channels: nat, width: nat)
    requires
        channels == 1 || channels == 2,
        width == 1 || width == 2 || width == 4,
        values.len() % channels == 0,
        forall|i: int| 0 <= i < values.len() ==> in_range(#[trigger] values[i], width),
    ensures
        decoded(encoded(values, width), channels, width) == values,
{
    let e = encoded(values, width);
    let n = values.len();
    assert(n * width / (channels * width) * channels == n) by (nonlinear_arith)
        requires
            n % channels == 0,
            channels > 0,
            width > 0,
    ;
    assert forall|i: int| 0 <= i < n implies sample_at(e, width, i) == values[i] by {
        lemma_encoded_sample(values, width, i);
    }
    assert(decoded(e, channels, width) =~= values);
}

impl AudioSamples {
    /// Every sample fits its width, and stereo buffers hold whole frames.
    pub proof fn lemma_values_fit(&self)
        ensures
            self.values().len() % self.channel_count() == 0,
            forall|i: int|
                0 <= i < self.values().len() ==> in_range(#[trigger] self.values()[i], self.width()),
    {
        let n = self.values().len();
        assert(n % 1 == 0);
        assert(self.channel_count() == 2 ==> n % 2 == 0);
    }
}

/// `x` narrowed to a `bits`-bit signed integer by dropping its high bits
/// (two's-complement wrap-around, no clamping).
pub open spec fn narrowed(x: i64, bits: u16) -> int {
    if bits == 8 {
        (x as i8) as int
    } else if bits == 16 {
        (x as i16) as int
    } else {
        (x as i32) as int
    }
}

/// Whether `bits` is a supported sample width.
pub open spec fn supported_bits(bits: u16) -> bool {
    bits == 8 || bits == 16 || bits == 32
}

impl AudioSamples {
    /// The samples of a mono buffer, widened to `i32`.
    pub fn to_i32_mono(&self) -> (r: Result<Vec<i32>, WavError>)
        ensures
            r is Ok <==> self.channel_count() == 1,
            r matches Ok(c) ==> c@.map_values(|x: i32| x as int) == self.values(),
            r matches Err(e) ==> e is InvalidWAudioFormat,
    {
        let mut out: Vec<i32> = Vec::new();
        match self {
            AudioSamples::MonoI8(v) => {
                let mut i: usize = 0;
                while i < v.len()
                    invariant
                        i <= v@.len(),
                        out@.len() == i,
                        forall|k: int| 0 <= k < i ==> out@[k] == v@[k],
                    decreases v@.len() - i,
                {
                    out.push(v[i] as i32);
                    i += 1;
                }
            },
            AudioSamples::MonoI16(v) => {
                let mut i: usize = 0;
                while i < v.len()
                    invariant
                        i <= v@.len(),
                        out@.len() == i,
                        forall|k: int| 0 <= k < i ==> out@[k] == v@[k],
                    decreases v@.len() - i,
                {
                    out.push(v[i] as i32);
                    i += 1;
                }
            },
            AudioSamples::MonoI32(v) => {
                let mut i: usize = 0;
                while i < v.len()
                    invariant
                        i <= v@.len(),
                        out@.len() == i,
                        forall|k: int| 0 <= k < i ==> out@[k] == v@[k],
                    decreases v@.len() - i,
                {
                    out.push(v[i]);
                    i += 1;
                }
            },
            _ => {
                return Err(WavError::InvalidWAudioFormat);
            },
        }
        assert(out@.map_values(|x: i32| x as int) =~= self.values());
        Ok(out)
    }

    /// The left and right channels of a stereo buffer, widened to `i32`.
    pub fn to_i32_stereo(&self) -> (r: Result<(Vec<i32>, Vec<i32>), WavError>)
        ensures
            r is Ok <==> self.channel_count() == 2,
            r matches Ok((left, right)) ==> {
                &&& 2 * left@.len() == self.values().len()
                &&& right@.len() == left@.len()
                &&& forall|i: int|
                    0 <= i < left@.len() ==> left@[i] == self.values()[2 * i] && right@[i]
                        == self.values()[2 * i + 1]
            },
            r matches Err(e) ==> e is InvalidWAudioFormat,
    {
        let mut left: Vec<i32> = Vec::new();
        let mut right: Vec<i32> = Vec::new();
        match self {
            AudioSamples::StereoI8(v) => {
                let mut i: usize = 0;
                while i < v.len()
                    invariant
                        i <= v@.len(),
                        left@.len() == i,
                        right@.len() == i,
                        forall|k: int|
                            0 <= k < i ==> left@[k] == v@[k]@[0] && right@[k] == v@[k]@[1],
                    decreases v@.len() - i,
                {
                    left.push(v[i][0] as i32);
                    right.push(v[i][1] as i32);
                    i += 1;
                }
            },
            AudioSamples::StereoI16(v) => {
                let mut i: usize = 0;
                while i < v.len()
                    invariant
                        i <= v@.len(),
                        left@.len() == i,
                        right@.len() == i,
                        forall|k: int|
                            0 <= k < i ==> left@[k] == v@[k]@[0] && right@[k] == v@[k]@[1],
                    decreases v@.len() - i,
                {
                    left.push(v[i][0] as i32);
                    right.push(v[i][1] as i32);
                    i += 1;
                }
            },
            AudioSamples::StereoI32(v) => {
                let mut i: usize = 0;
                while i < v.len()
                    invariant
                        i <= v@.len(),
                        left@.len() == i,
                        right@.len() == i,
                        forall|k: int|
                            0 <= k < i ==> left@[k] == v@[k]@[0] && right@[k] == v@[k]@[1],
                    decreases v@.len() - i,
                {
                    left.push(v[i][0]);
                    right.push(v[i][1]);
                    i += 1;
                }
            },
            _ => {
                return Err(WavError::InvalidWAudioFormat);
            },
        }
        Ok((left, right))
    }

    /// A mono buffer of `bits_per_sample`-bit samples, each value narrowed
    /// by dropping its high bits.
    pub fn from_i64_mono(channel: &[i64], bits_per_sample: u16) -> (r: Result<AudioSamples, WavError>)
        ensures
            r is Ok <==> supported_bits(bits_per_sample),
            r matches Ok(s) ==> {
                &&& s.channel_count() == 1
                &&& s.bits() == bits_per_sample
                &&& s.values() == channel@.map_values(|x: i64| narrowed(x, bits_per_sample))
            },
            r matches Err(e) ==> e is InvalidWAudioFormat,
    {
        let n: usize = channel.len();
        if bits_per_sample == 8 {
            let mut out: Vec<i8> = Vec::new();
            let mut i: usize = 0;
            while i < n
                invariant
                    n == channel@.len(),
                    i <= n,
                    out@.len() == i,
                    forall|k: int| 0 <= k < i ==> out@[k] as int == narrowed(channel@[k], 8),
                decreases n - i,
            {
                out.push(channel[i] as i8);
                i += 1;
            }
            let s = AudioSamples::MonoI8(out);
            assert(s.values() =~= channel@.map_values(|x: i64| narrowed(x, bits_per_sample)));
            Ok(s)
        } else if bits_per_sample == 16 {
            let mut out: Vec<i16> = Vec::new();
            let mut i: usize = 0;
            while i < n
                invariant
                    n == channel@.len(),
                    i <= n,
                    out@.len() == i,
                    forall|k: int| 0 <= k < i ==> out@[k] as int == narrowed(channel@[k], 16),
                decreases n - i,
            {
                out.push(channel[i] as i16);
                i += 1;
            }
            let s = AudioSamples::MonoI16(out);
            assert(s.values() =~= channel@.map_values(|x: i64| narrowed(x, bits_per_sample)));
            Ok(s)
        } else if bits_per_sample == 32 {
            let mut out: Vec<i32> = Vec::new();
            let mut i: usize = 0;
            while i < n
                invariant
                    n == channel@.len(),
                    i <= n,
                    out@.len() == i,
                    forall|k: int| 0 <= k < i ==> out@[k] as int == narrowed(channel@[k], 32),
                decreases n - i,
            {
                out.push(channel[i] as i32);
                i += 1;
            }
            let s = AudioSamples::MonoI32(out);
            assert(s.values() =~= channel@.map_values(|x: i64| narrowed(x, bits_per_sample)));
            Ok(s)
        } else {
            Err(WavError::InvalidWAudioFormat)
        }
    }

    /// A stereo buffer whose frames pair `left[i]` with `right[i]`, each value
    /// narrowed by dropping its high bits. Channels of different lengths are
    /// refused before the width is looked at.
    pub fn from_i64_stereo(left: &[i64], right: &[i64], bits_per_sample: u16) -> (r: Result<
        AudioSamples,
        WavError,
    >)
        ensures
            r is Ok <==> left@.len() == right@.len() && supported_bits(bits_per_sample),
            r matches Ok(s) ==> {
                &&& s.channel_count() == 2
                &&& s.bits() == bits_per_sample
                &&& s.values().len() == 2 * left@.len()
                &&& forall|i: int|
                    0 <= i < left@.len() ==> s.values()[2 * i] == narrowed(left@[i], bits_per_sample)
                        && s.values()[2 * i + 1] == narrowed(right@[i], bits_per_sample)
            },
            r matches Err(e) ==> if left@.len() != right@.len() {
                e is LengthMismatch
            } else {
                e is InvalidWAudioFormat
            },
    {
        let n: usize = left.len();
        if right.len() != n {
            return Err(WavError::LengthMismatch);
        }
        if bits_per_sample == 8 {
            let mut out: Vec<[i8; 2]> = Vec::new();
            let mut i: usize = 0;
            while i < n
                invariant
                    n == left@.len(),
                    n == right@.len(),
                    i <= n,
                    out@.len() == i,
                    forall|k: int|
                        0 <= k < i ==> out@[k]@[0] as int == narrowed(left@[k], 8) && out@[k]@[1] as int
                            == narrowed(right@[k], 8),
                decreases n - i,
            {
                out.push([left[i] as i8, right[i] as i8]);
                i += 1;
            }
            Ok(AudioSamples::StereoI8(out))
        } else if bits_per_sample == 16 {
            let mut out: Vec<[i16; 2]> = Vec::new();
            let mut i: usize = 0;
            while i < n
                invariant
                    n == left@.len(),
                    n == right@.len(),
                    i <= n,
                    out@.len() == i,
                    forall|k: int|
                        0 <= k < i ==> out@[k]@[0] as int == narrowed(left@[k], 16) && out@[k]@[1] as int
                            == narrowed(right@[k], 16),
                decreases n - i,
            {
                out.push([left[i] as i16, right[i] as i16]);
                i += 1;
            }
            Ok(AudioSamples::StereoI16(out))
        } else if bits_per_sample == 32 {
            let mut out: Vec<[i32; 2]> = Vec::new();
            let mut i: usize = 0;
            while i < n
                invariant
                    n == left@.len(),
                    n == right@.len(),
                    i <= n,
                    out@.len() == i,
                    forall|k: int|
                        0 <= k < i ==> out@[k]@[0] as int == narrowed(left@[k], 32) && out@[k]@[1] as int
                            == narrowed(right@[k], 32),
                decreases n - i,
            {
                out.push([left[i] as i32, right[i] as i32]);
                i += 1;
            }
            Ok(AudioSamples::StereoI32(out))
        } else {
            Err(WavError::InvalidWAudioFormat)
        }
    }
}

} // verus!
