//! The RIFF/WAVE container: a 12-byte header, a format chunk and a data
//! chunk, all little-endian.

use crate::bytes::{
    le_u16, le_u32, lemma_u16_bytes, lemma_u32_bytes, push_u16_le, push_u32_le, read_u16_le,
    read_u32_le, u16_bytes, u32_bytes,
};
use crate::error::WavError;
use crate::samples::{
    decoded, encoded, lemma_decode_encoded, narrowed, supported, supported_bits, AudioSamples,
};
use vstd::prelude::*;
use vstd::slice::{slice_subrange, slice_to_vec};

verus! {

/// `RIFF`, the container tag.
pub open spec fn riff_tag() -> Seq<u8> {
    seq![0x52u8, 0x49u8, 0x46u8, 0x46u8]
}

/// `WAVE`, the format tag.
pub open spec fn wave_tag() -> Seq<u8> {
    seq![0x57u8, 0x41u8, 0x56u8, 0x45u8]
}

/// `fmt `, the tag of the format chunk.
pub open spec fn fmt_tag() -> Seq<u8> {
    seq![0x66u8, 0x6du8, 0x74u8, 0x20u8]
}

/// `data`, the tag of the data chunk.
pub open spec fn data_tag() -> Seq<u8> {
    seq![0x64u8, 0x61u8, 0x74u8, 0x61u8]
}

/// The codec identifier of uncompressed linear PCM.
pub const PCM_CODE: u16 = 1;

/// The container header.
#[derive(Debug, Clone, PartialEq)]
pub struct WavHead {
    pub chunk_id: [u8; 4],
    /// Length of everything after this field: the file length less 8.
    pub chunk_size: u32,
    pub format: [u8; 4],
}

/// The codec named by the format chunk.
#[derive(Debug, Clone, PartialEq)]
pub enum AudioFormat {
    Pcm,
    Other(u16),
}

/// The format chunk.
#[derive(Debug, Clone, PartialEq)]
pub struct WavFmt {
    pub subchunk_id: [u8; 4],
    pub subchunk_size: u32,
    pub audio_format: AudioFormat,
    pub num_channels: u16,
    pub sample_rate: u32,
    /// Derived: `sample_rate * num_channels * bits_per_sample / 8`.
    pub byte_rate: u32,
    /// Derived: `num_channels * bits_per_sample / 8`.
    pub block_align: u16,
    pub bits_per_sample: u16,
}

/// The data chunk.
#[derive(Debug, Clone, PartialEq)]
pub struct WavData {
    pub subchunk_id: [u8; 4],
    /// Length of the sample bytes.
    pub subchunk_size: u32,
    pub data: AudioSamples,
}

/// A whole decoded file.
#[derive(Debug, Clone, PartialEq)]
pub struct WavFile {
    pub head: WavHead,
    pub fmt: WavFmt,
    pub data: WavData,
}

impl AudioFormat {
    /// The identifier written for this codec.
    pub open spec fn code(&self) -> u16 {
        match self {
            AudioFormat::Pcm => PCM_CODE,
            AudioFormat::Other(x) => *x,
        }
    }

    pub fn value(&self) -> (r: u16)
        ensures
            r == self.code(),
    {
        match self {
            AudioFormat::Pcm => PCM_CODE,
            AudioFormat::Other(x) => *x,
        }
    }
}

/// The byte rate that a format chunk derives,
/// `sample_rate * num_channels * bits_per_sample / 8`, as its 32-bit field
/// holds it: the low 32 bits, exact whenever it fits.
pub open spec fn derived_byte_rate(sample_rate: u32, num_channels: u16, bits_per_sample: u16) -> int {
    ((sample_rate * num_channels * bits_per_sample) / 8) % 0x1_0000_0000
}

/// The block alignment that a format chunk derives,
/// `num_channels * bits_per_sample / 8`, as its 16-bit field holds it: the
/// low 16 bits, exact whenever it fits.
pub open spec fn derived_block_align(num_channels: u16, bits_per_sample: u16) -> int {
    ((num_channels * bits_per_sample) / 8) % 0x10000
}

impl WavFmt {
    /// This is the PCM format chunk for the given channel count, sample rate
    /// and sample width, with its derived fields in place.
    pub open spec fn is_for(&self, num_channels: u16, sample_rate: u32, bits_per_sample: u16) -> bool {
        &&& self.subchunk_id@ == fmt_tag()
        &&& self.subchunk_size == 16
        &&& self.audio_format == AudioFormat::Pcm
        &&& self.num_channels == num_channels
        &&& self.sample_rate == sample_rate
        &&& self.byte_rate == derived_byte_rate(sample_rate, num_channels, bits_per_sample)
        &&& self.block_align == derived_block_align(num_channels, bits_per_sample)
        &&& self.bits_per_sample == bits_per_sample
    }
}

/// A container header declaring `chunk_size` bytes after its size field.
pub fn new_head(chunk_size: u32) -> (r: WavHead)
    ensures
        r.chunk_id@ == riff_tag(),
        r.chunk_size == chunk_size,
        r.format@ == wave_tag(),
{
    let r = WavHead { chunk_id: [0x52u8, 0x49u8, 0x46u8, 0x46u8], chunk_size, format: [0x57u8, 0x41u8, 0x56u8, 0x45u8] };
    assert(r.chunk_id@ =~= riff_tag());
    assert(r.format@ =~= wave_tag());
    r
}

/// The PCM format chunk for the given layout, its byte rate and block
/// alignment derived from it.
pub fn new_fmt(num_channels: u16, sample_rate: u32, bits_per_sample: u16) -> (r: WavFmt)
    ensures
        r.is_for(num_channels, sample_rate, bits_per_sample),
{
    assert(sample_rate * num_channels <= 0xffff_ffff * 0xffff) by (nonlinear_arith)
        requires
            sample_rate <= 0xffff_ffff,
            num_channels <= 0xffff,
    ;
    assert(sample_rate * num_channels * bits_per_sample <= 0xffff_ffff * 0xffff * 0xffff)
        by (nonlinear_arith)
        requires
            sample_rate * num_channels <= 0xffff_ffff * 0xffff,
            bits_per_sample <= 0xffff,
    ;
    assert(num_channels * bits_per_sample <= 0xffff * 0xffff) by (nonlinear_arith)
        requires
            num_channels <= 0xffff,
            bits_per_sample <= 0xffff,
    ;
    let product: u64 = sample_rate as u64 * num_channels as u64 * bits_per_sample as u64;
    let byte_rate: u32 = ((product / 8) % 0x1_0000_0000) as u32;
    let pair: u32 = num_channels as u32 * bits_per_sample as u32;
    let block_align: u16 = ((pair / 8) % 0x10000) as u16;
    let r = WavFmt {
        subchunk_id: [0x66u8, 0x6du8, 0x74u8, 0x20u8],
        subchunk_size: 16,
        audio_format: AudioFormat::Pcm,
        num_channels,
        sample_rate,
        byte_rate,
        block_align,
        bits_per_sample,
    };
    assert(r.subchunk_id@ =~= fmt_tag());
    r
}

/// A data chunk declaring `subchunk_size` sample bytes.
pub fn new_data(subchunk_size: u32, data: AudioSamples) -> (r: WavData)
    ensures
        r.subchunk_id@ == data_tag(),
        r.subchunk_size == subchunk_size,
        r.data == data,
{
    let r = WavData { subchunk_id: [0x64u8, 0x61u8, 0x74u8, 0x61u8], subchunk_size, data };
    assert(r.subchunk_id@ =~= data_tag());
    r
}

/// Walks the chain of chunks from `offset`, each an 8-byte tag and size
/// followed by that many bytes, to the first one tagged `tag`. Gives its
/// offset when its declared size fits in `d`; nothing when the walk runs out
/// of bytes first, or the chunk found runs past the end.
pub open spec fn chunk_search(d: Seq<u8>, tag: Seq<u8>, offset: int) -> Option<int>
    decreases d.len() - offset,
{
    if 0 <= offset && offset + 8 <= d.len() {
        let next = offset + 8 + le_u32(d, offset + 4);
        if d.subrange(offset, offset + 4) == tag {
            if next <= d.len() {
                Some(offset)
            } else {
                None
            }
        } else if next + 8 <= d.len() {
            chunk_search(d, tag, next)
        } else {
            None
        }
    } else {
        None
    }
}

/// Offset of the format chunk, found by walking from the end of the header.
pub open spec fn fmt_offset(d: Seq<u8>) -> Option<int> {
    chunk_search(d, fmt_tag(), 12)
}

/// Offset of the data chunk, found by walking from the end of the header.
pub open spec fn data_offset(d: Seq<u8>) -> Option<int> {
    chunk_search(d, data_tag(), 12)
}

/// The format chunk is there and holds at least the 16 bytes of a PCM
/// description.
pub open spec fn has_fmt(d: Seq<u8>) -> bool {
    fmt_offset(d) is Some && le_u32(d, fmt_offset(d)->0 + 4) >= 16
}

/// The codec identifier, channel count, sample rate and sample width that
/// the format chunk declares.
pub open spec fn declared_codec(d: Seq<u8>) -> int {
    le_u16(d, fmt_offset(d)->0 + 8)
}

pub open spec fn declared_channels(d: Seq<u8>) -> int {
    le_u16(d, fmt_offset(d)->0 + 10)
}

pub open spec fn declared_rate(d: Seq<u8>) -> int {
    le_u32(d, fmt_offset(d)->0 + 12)
}

pub open spec fn declared_bits(d: Seq<u8>) -> int {
    le_u16(d, fmt_offset(d)->0 + 22)
}

/// The sample bytes of the data chunk and their declared length.
pub open spec fn declared_data_size(d: Seq<u8>) -> int {
    le_u32(d, data_offset(d)->0 + 4)
}

pub open spec fn data_payload(d: Seq<u8>) -> Seq<u8> {
    d.subrange(data_offset(d)->0 + 8, data_offset(d)->0 + 8 + declared_data_size(d))
}

/// `d` holds a file this library decodes.
pub open spec fn decodable(d: Seq<u8>) -> bool {
    &&& d.len() >= 12
    &&& d.subrange(0, 4) == riff_tag()
    &&& d.subrange(8, 12) == wave_tag()
    &&& has_fmt(d)
    &&& declared_codec(d) == PCM_CODE
    &&& data_offset(d) is Some
    &&& supported(declared_channels(d), declared_bits(d))
}

/// `e` is the error that decoding `d` gives: the first check that fails, in
/// the order header tag, format tag, format chunk, data chunk, codec, layout.
/// Both chunks are looked up before their contents are judged.
pub open spec fn decode_fails_with(d: Seq<u8>, e: WavError) -> bool {
    if d.len() < 12 {
        e is UnexpectedLength
    } else if d.subrange(0, 4) != riff_tag() {
        e matches WavError::InvalidRiffHeader(found) && found@ == d.subrange(0, 4)
    } else if d.subrange(8, 12) != wave_tag() {
        e matches WavError::InvalidWaveFormat(found) && found@ == d.subrange(8, 12)
    } else if !has_fmt(d) {
        e is UnexpectedLength
    } else if data_offset(d) is None {
        e is UnexpectedLength
    } else if declared_codec(d) != PCM_CODE {
        e is InvalidWAudioFormat
    } else {
        !supported(declared_channels(d), declared_bits(d)) && e is InvalidWAudioFormat
    }
}

impl WavFile {
    /// `self` is what decoding `d` gives: a header sized to `d`, the format
    /// chunk rebuilt from the declared layout, and the data chunk's samples.
    pub open spec fn decodes_from(&self, d: Seq<u8>) -> bool {
        &&& self.head.chunk_id@ == riff_tag()
        &&& self.head.chunk_size == (d.len() - 8) as u32
        &&& self.head.format@ == wave_tag()
        &&& self.fmt.is_for(
            declared_channels(d) as u16,
            declared_rate(d) as u32,
            declared_bits(d) as u16,
        )
        &&& self.data.subchunk_id@ == data_tag()
        &&& self.data.subchunk_size == declared_data_size(d)
        &&& self.data.data.channel_count() == declared_channels(d)
        &&& self.data.data.bits() == declared_bits(d)
        &&& self.data.data.values() == decoded(
            data_payload(d),
            declared_channels(d) as nat,
            (declared_bits(d) / 8) as nat,
        )
    }
}

/// Whether the four bytes at `offset` are `tag`.
fn tag_at(data: &[u8], offset: usize, tag: &[u8; 4]) -> (r: bool)
    requires
        offset + 4 <= data@.len(),
    ensures
        r == (data@.subrange(offset as int, offset + 4) == tag@),
{
    let r = data[offset] == tag[0] && data[offset + 1] == tag[1] && data[offset + 2] == tag[2]
        && data[offset + 3] == tag[3];
    if r {
        assert(data@.subrange(offset as int, offset + 4) =~= tag@);
    } else {
        assert(data@.subrange(offset as int, offset + 4) != tag@) by {
            if data@.subrange(offset as int, offset + 4) == tag@ {
                assert(data@.subrange(offset as int, offset + 4)[0] == tag@[0]);
                assert(data@.subrange(offset as int, offset + 4)[1] == tag@[1]);
                assert(data@.subrange(offset as int, offset + 4)[2] == tag@[2]);
                assert(data@.subrange(offset as int, offset + 4)[3] == tag@[3]);
            }
        }
    }
    r
}

/// Offset of the chunk tagged `chunk_id`, walking from the end of the
/// header.
pub fn find_chunk(data: &[u8], chunk_id: &[u8; 4]) -> (r: Option<usize>)
    ensures
        r is Some <==> chunk_search(data@, chunk_id@, 12) is Some,
        r matches Some(o) ==> chunk_search(data@, chunk_id@, 12) == Some(o as int),
{
    let len: usize = data.len();
    let mut offset: usize = 12;
    if len < offset {
        return None;
    }
    while len - offset >= 8
        invariant
            len == data@.len(),
            12 <= offset <= len,
            chunk_search(data@, chunk_id@, 12) == chunk_search(data@, chunk_id@, offset as int),
        decreases len - offset,
    {
        let size: usize = read_u32_le(data, offset + 4) as usize;
        if tag_at(data, offset, chunk_id) {
            if size <= len - offset - 8 {
                return Some(offset);
            }
            return None;
        }
        if size > len - offset - 8 {
            return None;
        }
        offset = offset + 8 + size;
    }
    None
}

/// The container header of `data`, its size recomputed from the length.
fn get_head_chunk(data: &[u8]) -> (r: Result<WavHead, WavError>)
    requires
        data@.len() >= 12,
    ensures
        r is Ok <==> data@.subrange(0, 4) == riff_tag() && data@.subrange(8, 12) == wave_tag(),
        r matches Ok(h) ==> h.chunk_id@ == riff_tag() && h.chunk_size == (data@.len() - 8) as u32
            && h.format@ == wave_tag(),
        r matches Err(e) ==> decode_fails_with(data@, e),
{
    if !tag_at(data, 0, &[0x52u8, 0x49u8, 0x46u8, 0x46u8]) {
        proof {
            assert([0x52u8, 0x49u8, 0x46u8, 0x46u8]@ =~= riff_tag());
        }
        return Err(WavError::InvalidRiffHeader(slice_to_vec(slice_subrange(data, 0, 4))));
    }
    assert([0x52u8, 0x49u8, 0x46u8, 0x46u8]@ =~= riff_tag());
    if !tag_at(data, 8, &[0x57u8, 0x41u8, 0x56u8, 0x45u8]) {
        proof {
            assert([0x57u8, 0x41u8, 0x56u8, 0x45u8]@ =~= wave_tag());
        }
        return Err(WavError::InvalidWaveFormat(slice_to_vec(slice_subrange(data, 8, 12))));
    }
    assert([0x57u8, 0x41u8, 0x56u8, 0x45u8]@ =~= wave_tag());
    Ok(new_head((data.len() - 8) as u32))
}

/// A chunk that the walk finds carries the tag asked for and fits in `d`.
pub proof fn lemma_chunk_search_found(d: Seq<u8>, tag: Seq<u8>, offset: int)
    requires
        chunk_search(d, tag, offset) is Some,
    ensures
        ({
            let o = chunk_search(d, tag, offset)->0;
            &&& offset <= o
            &&& o + 8 + le_u32(d, o + 4) <= d.len()
            &&& d.subrange(o, o + 4) == tag
        }),
    decreases d.len() - offset,
{
    let next = offset + 8 + le_u32(d, offset + 4);
    if d.subrange(offset, offset + 4) != tag {
        lemma_chunk_search_found(d, tag, next);
    }
}

/// The format chunk of `data`, rebuilt from the layout it declares, with
/// the codec identifier it names.
fn get_fmt_subchunk(data: &[u8]) -> (r: Result<(WavFmt, u16), WavError>)
    requires
        data@.len() >= 12,
        data@.subrange(0, 4) == riff_tag(),
        data@.subrange(8, 12) == wave_tag(),
    ensures
        r is Ok <==> has_fmt(data@),
        r matches Ok((f, codec)) ==> codec == declared_codec(data@) && f.is_for(
            declared_channels(data@) as u16,
            declared_rate(data@) as u32,
            declared_bits(data@) as u16,
        ),
        r matches Err(e) ==> decode_fails_with(data@, e),
{
    let tag: [u8; 4] = [0x66u8, 0x6du8, 0x74u8, 0x20u8];
    assert(tag@ =~= fmt_tag());
    let len: usize = data.len();
    let offset: usize = match find_chunk(data, &tag) {
        Some(o) => o,
        None => {
            return Err(WavError::UnexpectedLength);
        },
    };
    proof {
        lemma_chunk_search_found(data@, fmt_tag(), 12);
    }
    let size: u32 = read_u32_le(data, offset + 4);
    if size < 16 {
        return Err(WavError::UnexpectedLength);
    }
    let codec: u16 = read_u16_le(data, offset + 8);
    let num_channels: u16 = read_u16_le(data, offset + 10);
    let sample_rate: u32 = read_u32_le(data, offset + 12);
    let bits_per_sample: u16 = read_u16_le(data, offset + 22);
    Ok((new_fmt(num_channels, sample_rate, bits_per_sample), codec))
}

/// The data chunk of `data`, its samples read in the layout `fmt` names,
/// once the chunk is found and `codec` is PCM.
fn get_data_subchunk(data: &[u8], fmt: &WavFmt, codec: u16) -> (r: Result<WavData, WavError>)
    requires
        data@.len() >= 12,
        data@.subrange(0, 4) == riff_tag(),
        data@.subrange(8, 12) == wave_tag(),
        has_fmt(data@),
        codec == declared_codec(data@),
        fmt.num_channels == declared_channels(data@),
        fmt.bits_per_sample == declared_bits(data@),
    ensures
        r is Ok <==> data_offset(data@) is Some && codec == PCM_CODE && supported(
            declared_channels(data@),
            declared_bits(data@),
        ),
        r matches Ok(w) ==> {
            &&& w.subchunk_id@ == data_tag()
            &&& w.subchunk_size == declared_data_size(data@)
            &&& w.data.channel_count() == declared_channels(data@)
            &&& w.data.bits() == declared_bits(data@)
            &&& w.data.values() == decoded(
                data_payload(data@),
                declared_channels(data@) as nat,
                (declared_bits(data@) / 8) as nat,
            )
        },
        r matches Err(e) ==> decode_fails_with(data@, e),
{
    let tag: [u8; 4] = [0x64u8, 0x61u8, 0x74u8, 0x61u8];
    assert(tag@ =~= data_tag());
    let len: usize = data.len();
    let offset: usize = match find_chunk(data, &tag) {
        Some(o) => o,
        None => {
            return Err(WavError::UnexpectedLength);
        },
    };
    proof {
        lemma_chunk_search_found(data@, data_tag(), 12);
    }
    if codec != PCM_CODE {
        return Err(WavError::InvalidWAudioFormat);
    }
    let size: u32 = read_u32_le(data, offset + 4);
    let payload: &[u8] = slice_subrange(data, offset + 8, offset + 8 + size as usize);
    match AudioSamples::from_le_bytes(payload, fmt.num_channels, fmt.bits_per_sample) {
        Ok(samples) => Ok(new_data(size, samples)),
        Err(e) => Err(e),
    }
}

impl WavFile {
    pub fn from_subchunks(head: WavHead, fmt: WavFmt, data: WavData) -> (r: WavFile)
        ensures
            r.head == head,
            r.fmt == fmt,
            r.data == data,
    {
        WavFile { head, fmt, data }
    }

    /// Decodes a whole file held in memory.
    pub fn from_bytes(data: &[u8]) -> (r: Result<WavFile, WavError>)
        ensures
            r is Ok <==> decodable(data@),
            r matches Ok(f) ==> f.decodes_from(data@),
            r matches Err(e) ==> decode_fails_with(data@, e),
    {
        if data.len() < 12 {
            return Err(WavError::UnexpectedLength);
        }
        let head = match get_head_chunk(data) {
            Ok(h) => h,
            Err(e) => {
                return Err(e);
            },
        };
        let (fmt, codec) = match get_fmt_subchunk(data) {
            Ok(f) => f,
            Err(e) => {
                return Err(e);
            },
        };
        let body = match get_data_subchunk(data, &fmt, codec) {
            Ok(b) => b,
            Err(e) => {
                return Err(e);
            },
        };
        Ok(WavFile::from_subchunks(head, fmt, body))
    }
}

impl WavFile {
    /// The sample bytes this file writes.
    pub open spec fn body(&self) -> Seq<u8> {
        encoded(self.data.data.values(), self.data.data.width())
    }

    /// The 12 header bytes written: the size counts everything after it.
    pub open spec fn head_bytes(&self) -> Seq<u8> {
        self.head.chunk_id@ + u32_bytes((36 + self.body().len()) as u32) + self.head.format@
    }

    /// The 24 bytes of the format chunk written, its size and derived fields
    /// recomputed.
    pub open spec fn fmt_bytes(&self) -> Seq<u8> {
        WavFile::fmt_bytes_of(self.fmt)
    }

    /// The 8 bytes that open the data chunk: its tag and the sample length.
    pub open spec fn data_head_bytes(&self) -> Seq<u8> {
        self.data.subchunk_id@ + u32_bytes(self.body().len() as u32)
    }

    /// The whole file as written.
    pub open spec fn encoding(&self) -> Seq<u8> {
        self.head_bytes() + self.fmt_bytes() + self.data_head_bytes() + self.body()
    }
}

fn push_tag(v: &mut Vec<u8>, tag: &[u8; 4])
    ensures
        final(v)@ == old(v)@ + tag@,
{
    v.push(tag[0]);
    v.push(tag[1]);
    v.push(tag[2]);
    v.push(tag[3]);
    assert(final(v)@ =~= old(v)@ + tag@);
}

fn write_head_subchunk_to_vec(head: &WavHead, chunk_size: u32, v: &mut Vec<u8>)
    ensures
        final(v)@ == old(v)@ + head.chunk_id@ + u32_bytes(chunk_size) + head.format@,
{
    push_tag(v, &head.chunk_id);
    push_u32_le(v, chunk_size);
    push_tag(v, &head.format);
}

fn write_fmt_subchunk_to_vec(fmt: &WavFmt, v: &mut Vec<u8>)
    ensures
        final(v)@ == old(v)@ + WavFile::fmt_bytes_of(*fmt),
{
    let derived = new_fmt(fmt.num_channels, fmt.sample_rate, fmt.bits_per_sample);
    push_tag(v, &fmt.subchunk_id);
    push_u32_le(v, 16);
    push_u16_le(v, fmt.audio_format.value());
    push_u16_le(v, fmt.num_channels);
    push_u32_le(v, fmt.sample_rate);
    push_u32_le(v, derived.byte_rate);
    push_u16_le(v, derived.block_align);
    push_u16_le(v, fmt.bits_per_sample);
}

fn write_data_subchunk_to_vec(data: &WavData, samples: &Vec<u8>, v: &mut Vec<u8>)
    requires
        samples@.len() <= u32::MAX,
    ensures
        final(v)@ == old(v)@ + data.subchunk_id@ + u32_bytes(samples@.len() as u32) + samples@,
{
    push_tag(v, &data.subchunk_id);
    push_u32_le(v, samples.len() as u32);
    let mut i: usize = 0;
    let ghost start = v@;
    while i < samples.len()
        invariant
            i <= samples@.len(),
            v@ == start + samples@.subrange(0, i as int),
        decreases samples@.len() - i,
    {
        v.push(samples[i]);
        i += 1;
        assert(v@ =~= start + samples@.subrange(0, i as int));
    }
    assert(samples@.subrange(0, samples@.len() as int) =~= samples@);
}

impl WavFile {
    /// `fmt_bytes` of a file whose format chunk is `fmt`.
    pub open spec fn fmt_bytes_of(fmt: WavFmt) -> Seq<u8> {
        fmt.subchunk_id@ + u32_bytes(16) + u16_bytes(fmt.audio_format.code()) + u16_bytes(
            fmt.num_channels,
        ) + u32_bytes(fmt.sample_rate) + u32_bytes(
            derived_byte_rate(fmt.sample_rate, fmt.num_channels, fmt.bits_per_sample) as u32,
        ) + u16_bytes(derived_block_align(fmt.num_channels, fmt.bits_per_sample) as u16) + u16_bytes(
            fmt.bits_per_sample,
        )
    }

    /// Encodes the file. The header size, the format chunk's size, byte rate
    /// and block alignment, and the data chunk's size are recomputed; the
    /// tags, the codec and the layout are written as held.
    pub fn create_le_bytes_vector(&self) -> (r: Vec<u8>)
        requires
            36 + self.body().len() <= u32::MAX,
        ensures
            r@ == self.encoding(),
    {
        let samples = self.data.data.to_le_bytes_vector();
        let mut v: Vec<u8> = Vec::new();
        write_head_subchunk_to_vec(&self.head, 36 + samples.len() as u32, &mut v);
        write_fmt_subchunk_to_vec(&self.fmt, &mut v);
        write_data_subchunk_to_vec(&self.data, &samples, &mut v);
        assert(self.fmt_bytes() == WavFile::fmt_bytes_of(self.fmt));
        assert(v@ =~= self.encoding());
        v
    }
}

impl WavFile {
    /// The file agrees with itself: tags in place, the format chunk is the
    /// PCM one for its own layout, both sizes match the samples, and the
    /// samples are in the layout the format chunk names.
    pub open spec fn well_formed(&self) -> bool {
        &&& self.head.chunk_id@ == riff_tag()
        &&& self.head.format@ == wave_tag()
        &&& self.head.chunk_size == 36 + self.body().len()
        &&& self.fmt.is_for(self.fmt.num_channels, self.fmt.sample_rate, self.fmt.bits_per_sample)
        &&& self.data.subchunk_id@ == data_tag()
        &&& self.data.subchunk_size == self.body().len()
        &&& self.data.data.channel_count() == self.fmt.num_channels
        &&& self.data.data.bits() == self.fmt.bits_per_sample
    }

    /// The two files hold the same header, the same format chunk, and the
    /// same data chunk: its tag, its size, and samples in the same layout
    /// with the same values.
    pub open spec fn same_content(&self, other: &WavFile) -> bool {
        &&& self.head == other.head
        &&& self.fmt == other.fmt
        &&& self.data.subchunk_id == other.data.subchunk_id
        &&& self.data.subchunk_size == other.data.subchunk_size
        &&& self.data.data.channel_count() == other.data.data.channel_count()
        &&& self.data.data.bits() == other.data.data.bits()
        &&& self.data.data.values() == other.data.data.values()
    }
}

/// Decoding the encoding of a well-formed file succeeds, and whatever it
/// gives holds the same content as the file encoded.
pub proof fn lemma_round_trip(f: WavFile)
    requires
        f.well_formed(),
    ensures
        decodable(f.encoding()),
        f.decodes_from(f.encoding()),
        forall|g: WavFile| #[trigger] g.decodes_from(f.encoding()) ==> g.same_content(&f),
{
    let e = f.encoding();
    let h = f.head_bytes();
    let fm = f.fmt_bytes();
    let dh = f.data_head_bytes();
    let body = f.body();
    let n = body.len();
    let fmt = f.fmt;
    lemma_u32_bytes((36 + n) as u32);
    lemma_u32_bytes(16);
    lemma_u16_bytes(fmt.audio_format.code());
    lemma_u16_bytes(fmt.num_channels);
    lemma_u32_bytes(fmt.sample_rate);
    lemma_u32_bytes(derived_byte_rate(fmt.sample_rate, fmt.num_channels, fmt.bits_per_sample) as u32);
    lemma_u16_bytes(derived_block_align(fmt.num_channels, fmt.bits_per_sample) as u16);
    lemma_u16_bytes(fmt.bits_per_sample);
    lemma_u32_bytes(n as u32);
    assert(h.len() == 12 && fm.len() == 24 && dh.len() == 8);
    assert(e.len() == 44 + n);
    assert(e.subrange(0, 4) =~= riff_tag());
    assert(e.subrange(8, 12) =~= wave_tag());
    assert(e.subrange(12, 16) =~= fmt_tag());
    assert(e.subrange(36, 40) =~= data_tag());
    assert(le_u32(e, 16) == le_u32(u32_bytes(16), 0));
    assert(le_u16(e, 20) == le_u16(u16_bytes(fmt.audio_format.code()), 0));
    assert(le_u16(e, 22) == le_u16(u16_bytes(fmt.num_channels), 0));
    assert(le_u32(e, 24) == le_u32(u32_bytes(fmt.sample_rate), 0));
    assert(le_u16(e, 34) == le_u16(u16_bytes(fmt.bits_per_sample), 0));
    assert(le_u32(e, 40) == le_u32(u32_bytes(n as u32), 0));
    assert(chunk_search(e, fmt_tag(), 12) == Some(12int));
    assert(fmt_tag() != data_tag()) by {
        assert(fmt_tag()[0] != data_tag()[0]);
    }
    assert(chunk_search(e, data_tag(), 36) == Some(36int));
    assert(chunk_search(e, data_tag(), 12) == Some(36int));
    assert(data_payload(e) =~= body);
    f.data.data.lemma_values_fit();
    lemma_decode_encoded(f.data.data.values(), f.data.data.channel_count(), f.data.data.width());
    assert(f.decodes_from(e));
    assert forall|g: WavFile| #[trigger] g.decodes_from(e) implies g.same_content(&f) by {
        assert(g.head.chunk_id =~= f.head.chunk_id);
        assert(g.head.format =~= f.head.format);
        assert(g.fmt.subchunk_id =~= f.fmt.subchunk_id);
        assert(g.data.subchunk_id =~= f.data.subchunk_id);
    }
}

/// Bytes whose header is sound, whose format and data chunks are both found,
/// and whose format chunk names a codec other than PCM do not decode, and
/// the error is the unsupported-format one, whatever the layout.
pub proof fn lemma_non_pcm_rejected(d: Seq<u8>, e: WavError)
    requires
        d.len() >= 12,
        d.subrange(0, 4) == riff_tag(),
        d.subrange(8, 12) == wave_tag(),
        has_fmt(d),
        data_offset(d) is Some,
        declared_codec(d) != PCM_CODE,
        decode_fails_with(d, e),
    ensures
        !decodable(d),
        e is InvalidWAudioFormat,
{
}

impl WavFile {
    /// `self` is `before` with only its samples replaced, by samples of the
    /// format chunk's width.
    pub open spec fn samples_replaced(&self, before: &WavFile) -> bool {
        &&& self.head == before.head
        &&& self.fmt == before.fmt
        &&& self.data.subchunk_id == before.data.subchunk_id
        &&& self.data.subchunk_size == before.data.subchunk_size
        &&& self.data.data.channel_count() == before.data.data.channel_count()
        &&& self.data.data.bits() == before.fmt.bits_per_sample
    }

    /// Replaces the samples of a mono file by `channel`, each narrowed to the
    /// format chunk's sample width. On error the file is left as it was.
    pub fn replace_mono(&mut self, channel: &[i64]) -> (r: Result<(), WavError>)
        ensures
            r is Ok <==> old(self).data.data.channel_count() == 1 && supported_bits(
                old(self).fmt.bits_per_sample,
            ),
            r matches Err(e) ==> e is InvalidWAudioFormat && *final(self) == *old(self),
            r is Ok ==> {
                &&& final(self).samples_replaced(old(self))
                &&& final(self).data.data.values() == channel@.map_values(
                    |x: i64| narrowed(x, old(self).fmt.bits_per_sample),
                )
            },
            r is Ok && old(self).well_formed() && channel@.len() == old(self).data.data.values().len()
                ==> final(self).well_formed(),
    {
        match self.data.data {
            AudioSamples::MonoI8(_) | AudioSamples::MonoI16(_) | AudioSamples::MonoI32(_) => {},
            _ => {
                return Err(WavError::InvalidWAudioFormat);
            },
        }
        match AudioSamples::from_i64_mono(channel, self.fmt.bits_per_sample) {
            Ok(samples) => {
                let ghost before = *self;
                self.data.data = samples;
                proof {
                    lemma_replaced_well_formed(before, *self);
                }
                Ok(())
            },
            Err(e) => Err(e),
        }
    }

    /// Replaces the samples of a stereo file by frames pairing `left[i]` with
    /// `right[i]`, each narrowed to the format chunk's sample width. On error
    /// the file is left as it was.
    pub fn replace_stereo(&mut self, left: &[i64], right: &[i64]) -> (r: Result<(), WavError>)
        ensures
            r is Ok <==> old(self).data.data.channel_count() == 2 && left@.len() == right@.len()
                && supported_bits(old(self).fmt.bits_per_sample),
            r matches Err(e) ==> *final(self) == *old(self) && if old(self).data.data.channel_count()
                == 2 && left@.len() != right@.len() {
                e is LengthMismatch
            } else {
                e is InvalidWAudioFormat
            },
            r is Ok ==> {
                let bits = old(self).fmt.bits_per_sample;
                &&& final(self).samples_replaced(old(self))
                &&& final(self).data.data.values().len() == 2 * left@.len()
                &&& forall|i: int|
                    0 <= i < left@.len() ==> final(self).data.data.values()[2 * i] == narrowed(
                        left@[i],
                        bits,
                    ) && final(self).data.data.values()[2 * i + 1] == narrowed(right@[i], bits)
            },
            r is Ok && old(self).well_formed() && 2 * left@.len() == old(self).data.data.values().len()
                ==> final(self).well_formed(),
    {
        match self.data.data {
            AudioSamples::StereoI8(_) | AudioSamples::StereoI16(_) | AudioSamples::StereoI32(_) => {},
            _ => {
                return Err(WavError::InvalidWAudioFormat);
            },
        }
        match AudioSamples::from_i64_stereo(left, right, self.fmt.bits_per_sample) {
            Ok(samples) => {
                let ghost before = *self;
                self.data.data = samples;
                proof {
                    lemma_replaced_well_formed(before, *self);
                }
                Ok(())
            },
            Err(e) => Err(e),
        }
    }
}

/// Replacing the samples of a well-formed file by as many samples of the
/// same layout keeps it well-formed.
proof fn lemma_replaced_well_formed(before: WavFile, after: WavFile)
    requires
        after.samples_replaced(&before),
    ensures
        before.well_formed() && after.data.data.values().len() == before.data.data.values().len()
            ==> after.well_formed(),
{
}

/// A decoded header always carries the RIFF and WAVE tags, and its size is
/// recomputed from the length of the bytes, whatever their size field holds.
pub proof fn lemma_decoded_head(f: WavFile, d: Seq<u8>)
    requires
        f.decodes_from(d),
    ensures
        f.head.chunk_id@ == riff_tag(),
        f.head.format@ == wave_tag(),
        f.head.chunk_size == (d.len() - 8) as u32,
{
}

} // verus!
