use wav_denoise::{
    find_chunk, new_data, new_fmt, new_head, AudioFormat, AudioSamples, WavError, WavFile,
};

fn mono16_file(samples: Vec<i16>) -> WavFile {
    let size = (samples.len() * 2) as u32;
    WavFile::from_subchunks(
        new_head(36 + size),
        new_fmt(1, 8000, 16),
        new_data(size, AudioSamples::MonoI16(samples)),
    )
}

fn file_of(data: AudioSamples, channels: u16, bits: u16, rate: u32) -> WavFile {
    let size = data.to_le_bytes_vector().len() as u32;
    WavFile::from_subchunks(
        new_head(36 + size),
        new_fmt(channels, rate, bits),
        new_data(size, data),
    )
}

/// A header and format chunk with the given codec, layout and extra chunk,
/// followed by a data chunk holding `payload`.
fn container(codec: u16, channels: u16, bits: u16, extra: &[u8], payload: &[u8]) -> Vec<u8> {
    let mut v = Vec::new();
    v.extend_from_slice(b"RIFF");
    let total = 4 + 24 + extra.len() + 8 + payload.len();
    v.extend_from_slice(&(total as u32).to_le_bytes());
    v.extend_from_slice(b"WAVE");
    v.extend_from_slice(b"fmt ");
    v.extend_from_slice(&16u32.to_le_bytes());
    v.extend_from_slice(&codec.to_le_bytes());
    v.extend_from_slice(&channels.to_le_bytes());
    v.extend_from_slice(&8000u32.to_le_bytes());
    v.extend_from_slice(&0u32.to_le_bytes());
    v.extend_from_slice(&0u16.to_le_bytes());
    v.extend_from_slice(&bits.to_le_bytes());
    v.extend_from_slice(extra);
    v.extend_from_slice(b"data");
    v.extend_from_slice(&(payload.len() as u32).to_le_bytes());
    v.extend_from_slice(payload);
    v
}

#[test]
fn mono16_scenario_round_trip() {
    let samples = vec![1000i16, -1000, 1000, -1000, 0, 0, 0, 0];
    let f = mono16_file(samples.clone());
    let bytes = f.create_le_bytes_vector();
    assert_eq!(bytes.len(), 44 + 16);
    assert_eq!(&bytes[0..4], b"RIFF");
    assert_eq!(u32::from_le_bytes([bytes[4], bytes[5], bytes[6], bytes[7]]), 52);
    assert_eq!(&bytes[8..16], b"WAVEfmt ");
    assert_eq!(u32::from_le_bytes([bytes[28], bytes[29], bytes[30], bytes[31]]), 16000);
    assert_eq!(&bytes[36..40], b"data");
    assert_eq!(&bytes[44..46], &[0xe8, 0x03]);
    assert_eq!(&bytes[46..48], &[0x18, 0xfc]);
    let g = WavFile::from_bytes(&bytes).unwrap();
    assert_eq!(g.data.data, AudioSamples::MonoI16(samples));
    assert_eq!(g, f);
}

#[test]
fn round_trip_every_layout() {
    let layouts = vec![
        (AudioSamples::MonoI8(vec![0, 1, -1, 127, -128]), 1u16, 8u16),
        (AudioSamples::StereoI8(vec![[1, -1], [-128, 127]]), 2, 8),
        (AudioSamples::MonoI16(vec![i16::MIN, -1, 0, 1, i16::MAX]), 1, 16),
        (AudioSamples::StereoI16(vec![[300, -300], [i16::MIN, i16::MAX]]), 2, 16),
        (AudioSamples::MonoI32(vec![i32::MIN, -70000, 70000, i32::MAX]), 1, 32),
        (AudioSamples::StereoI32(vec![[5, -5], [i32::MIN, i32::MAX]]), 2, 32),
    ];
    for (data, channels, bits) in layouts {
        let f = file_of(data, channels, bits, 44100);
        let g = WavFile::from_bytes(&f.create_le_bytes_vector()).unwrap();
        assert_eq!(g, f);
    }
}

#[test]
fn round_trip_empty_buffer() {
    let f = mono16_file(vec![]);
    let bytes = f.create_le_bytes_vector();
    assert_eq!(bytes.len(), 44);
    let g = WavFile::from_bytes(&bytes).unwrap();
    assert_eq!(g, f);
}

#[test]
fn encode_recomputes_sizes_and_derived_fields() {
    let mut f = mono16_file(vec![1, 2, 3]);
    f.head.chunk_size = 7;
    f.data.subchunk_size = 99;
    f.fmt.byte_rate = 1;
    f.fmt.block_align = 1;
    f.fmt.subchunk_size = 40;
    let bytes = f.create_le_bytes_vector();
    assert_eq!(bytes.len(), 50);
    assert_eq!(u32::from_le_bytes([bytes[4], bytes[5], bytes[6], bytes[7]]), 42);
    assert_eq!(u32::from_le_bytes([bytes[16], bytes[17], bytes[18], bytes[19]]), 16);
    assert_eq!(u32::from_le_bytes([bytes[28], bytes[29], bytes[30], bytes[31]]), 16000);
    assert_eq!(u16::from_le_bytes([bytes[32], bytes[33]]), 2);
    assert_eq!(u32::from_le_bytes([bytes[40], bytes[41], bytes[42], bytes[43]]), 6);
}

#[test]
fn decode_rebuilds_derived_fields_and_size() {
    let bytes = container(1, 2, 16, &[], &[1, 0, 2, 0, 3, 0, 4, 0]);
    let f = WavFile::from_bytes(&bytes).unwrap();
    assert_eq!(f.head.chunk_size, bytes.len() as u32 - 8);
    assert_eq!(f.fmt, new_fmt(2, 8000, 16));
    assert_eq!(f.fmt.byte_rate, 32000);
    assert_eq!(f.fmt.block_align, 4);
    assert_eq!(f.data.subchunk_size, 8);
    assert_eq!(f.data.data, AudioSamples::StereoI16(vec![[1, 2], [3, 4]]));
}

#[test]
fn non_pcm_codec_is_rejected() {
    let bytes = container(3, 1, 16, &[], &[0, 0]);
    assert_eq!(WavFile::from_bytes(&bytes), Err(WavError::InvalidWAudioFormat));
}

#[test]
fn unsupported_layout_is_rejected() {
    let three_channels = container(1, 3, 16, &[], &[0; 6]);
    assert_eq!(WavFile::from_bytes(&three_channels), Err(WavError::InvalidWAudioFormat));
    let width_24 = container(1, 1, 24, &[], &[0; 6]);
    assert_eq!(WavFile::from_bytes(&width_24), Err(WavError::InvalidWAudioFormat));
}

#[test]
fn short_input_is_unexpected_length() {
    assert_eq!(WavFile::from_bytes(&[]), Err(WavError::UnexpectedLength));
    assert_eq!(WavFile::from_bytes(b"RIFF\0\0\0\0WAV"), Err(WavError::UnexpectedLength));
}

#[test]
fn wrong_container_tag() {
    let mut bytes = container(1, 1, 16, &[], &[0, 0]);
    bytes[0..4].copy_from_slice(b"RIFX");
    assert_eq!(
        WavFile::from_bytes(&bytes),
        Err(WavError::InvalidRiffHeader(b"RIFX".to_vec()))
    );
}

#[test]
fn wrong_format_tag() {
    let mut bytes = container(1, 1, 16, &[], &[0, 0]);
    bytes[8..12].copy_from_slice(b"AVI ");
    assert_eq!(
        WavFile::from_bytes(&bytes),
        Err(WavError::InvalidWaveFormat(b"AVI ".to_vec()))
    );
}

#[test]
fn missing_or_short_format_chunk() {
    let mut bytes = container(1, 1, 16, &[], &[0, 0]);
    bytes[12..16].copy_from_slice(b"junk");
    assert_eq!(WavFile::from_bytes(&bytes), Err(WavError::UnexpectedLength));

    let mut short = Vec::new();
    short.extend_from_slice(b"RIFF\x1c\0\0\0WAVEfmt ");
    short.extend_from_slice(&8u32.to_le_bytes());
    short.extend_from_slice(&[1, 0, 1, 0, 0x40, 0x1f, 0, 0]);
    short.extend_from_slice(b"data\0\0\0\0");
    assert_eq!(WavFile::from_bytes(&short), Err(WavError::UnexpectedLength));
}

#[test]
fn missing_or_overlong_data_chunk() {
    let bytes = container(1, 1, 16, &[], &[0, 0]);
    let without_data = &bytes[..36];
    assert_eq!(WavFile::from_bytes(without_data), Err(WavError::UnexpectedLength));
    let mut overlong = bytes.clone();
    overlong[40..44].copy_from_slice(&100u32.to_le_bytes());
    assert_eq!(WavFile::from_bytes(&overlong), Err(WavError::UnexpectedLength));
}

#[test]
fn unknown_chunks_are_skipped() {
    let mut extra = Vec::new();
    extra.extend_from_slice(b"LIST");
    extra.extend_from_slice(&4u32.to_le_bytes());
    extra.extend_from_slice(b"abcd");
    let bytes = container(1, 1, 8, &extra, &[5, 0xfb]);
    let f = WavFile::from_bytes(&bytes).unwrap();
    assert_eq!(f.data.data, AudioSamples::MonoI8(vec![5, -5]));
    assert_eq!(find_chunk(&bytes, b"LIST"), Some(36));
    assert_eq!(find_chunk(&bytes, b"data"), Some(48));
    assert_eq!(find_chunk(&bytes, b"fmt "), Some(12));
    assert_eq!(find_chunk(&bytes, b"none"), None);
}

#[test]
fn trailing_partial_frame_is_dropped() {
    let bytes = container(1, 2, 16, &[], &[1, 0, 2, 0, 3, 0]);
    let f = WavFile::from_bytes(&bytes).unwrap();
    assert_eq!(f.data.subchunk_size, 6);
    assert_eq!(f.data.data, AudioSamples::StereoI16(vec![[1, 2]]));
}

#[test]
fn new_fmt_derives_rates() {
    let f = new_fmt(2, 44100, 16);
    assert_eq!(&f.subchunk_id, b"fmt ");
    assert_eq!(f.subchunk_size, 16);
    assert_eq!(f.audio_format, AudioFormat::Pcm);
    assert_eq!(f.byte_rate, 176400);
    assert_eq!(f.block_align, 4);
    let wrapped = new_fmt(2, 0x4000_0000, 32);
    assert_eq!(wrapped.byte_rate, 0);
    assert_eq!(wrapped.block_align, 8);
}

#[test]
fn header_and_data_constructors() {
    let h = new_head(36);
    assert_eq!(&h.chunk_id, b"RIFF");
    assert_eq!(&h.format, b"WAVE");
    assert_eq!(h.chunk_size, 36);
    let d = new_data(2, AudioSamples::MonoI8(vec![1, 2]));
    assert_eq!(&d.subchunk_id, b"data");
    assert_eq!(d.subchunk_size, 2);
}

#[test]
fn audio_format_values() {
    assert_eq!(AudioFormat::Pcm.value(), 1);
    assert_eq!(AudioFormat::Other(85).value(), 85);
}

#[test]
fn replace_mono_keeps_header_and_format() {
    let mut f = mono16_file(vec![1, 2, 3]);
    let before = f.clone();
    assert_eq!(f.replace_mono(&[40000, -5, 7]), Ok(()));
    assert_eq!(f.data.data, AudioSamples::MonoI16(vec![-25536, -5, 7]));
    assert_eq!(f.head, before.head);
    assert_eq!(f.fmt, before.fmt);
    assert_eq!(f.data.subchunk_size, before.data.subchunk_size);
    let g = WavFile::from_bytes(&f.create_le_bytes_vector()).unwrap();
    assert_eq!(g, f);
}

#[test]
fn replace_refuses_wrong_layout_and_leaves_file() {
    let mut f = mono16_file(vec![1, 2]);
    let before = f.clone();
    assert_eq!(f.replace_stereo(&[1, 2], &[3, 4]), Err(WavError::InvalidWAudioFormat));
    assert_eq!(f, before);

    let mut s = file_of(AudioSamples::StereoI8(vec![[1, 2]]), 2, 8, 8000);
    let kept = s.clone();
    assert_eq!(s.replace_mono(&[1]), Err(WavError::InvalidWAudioFormat));
    assert_eq!(s.replace_stereo(&[1, 2], &[3]), Err(WavError::LengthMismatch));
    assert_eq!(s, kept);
    assert_eq!(s.replace_stereo(&[300], &[-1]), Ok(()));
    assert_eq!(s.data.data, AudioSamples::StereoI8(vec![[44, -1]]));
}

#[test]
fn missing_data_chunk_reported_before_codec() {
    let bytes = container(3, 1, 16, &[], &[0, 0]);
    assert_eq!(WavFile::from_bytes(&bytes[..36]), Err(WavError::UnexpectedLength));
    let mut overlong = bytes.clone();
    overlong[40..44].copy_from_slice(&100u32.to_le_bytes());
    assert_eq!(WavFile::from_bytes(&overlong), Err(WavError::UnexpectedLength));
}

#[test]
fn codec_reported_before_layout() {
    let bytes = container(3, 5, 12, &[], &[0, 0]);
    assert_eq!(WavFile::from_bytes(&bytes), Err(WavError::InvalidWAudioFormat));
}

#[test]
fn derived_fields_divide_before_keeping_low_bits() {
    let wide = new_fmt(2, 8000, 40000);
    assert_eq!(wide.block_align, 10000);
    let fast = new_fmt(2, 1 << 28, 16);
    assert_eq!(fast.byte_rate, 1 << 30);
    let huge = new_fmt(65535, 1, 65535);
    assert_eq!(huge.block_align, ((65535u64 * 65535 / 8) % 65536) as u16);
}

#[test]
fn stored_size_field_is_not_trusted() {
    let mut bytes = container(1, 1, 16, &[], &[1, 0]);
    bytes[4..8].copy_from_slice(&7u32.to_le_bytes());
    let f = WavFile::from_bytes(&bytes).unwrap();
    assert_eq!(f.head.chunk_size, bytes.len() as u32 - 8);
    assert_eq!(&f.head.chunk_id, b"RIFF");
    assert_eq!(&f.head.format, b"WAVE");
}
