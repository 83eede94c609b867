use wav_denoise::{AudioSamples, WavError, WavFile, WavSource};

#[test]
fn eight_bit_samples_are_signed() {
    let s = AudioSamples::from_le_bytes(&[0x00, 0x7f, 0x80, 0xff], 1, 8).unwrap();
    assert_eq!(s, AudioSamples::MonoI8(vec![0, 127, -128, -1]));
    assert_eq!(s.to_le_bytes_vector(), vec![0x00, 0x7f, 0x80, 0xff]);
}

#[test]
fn little_endian_decoding() {
    let s = AudioSamples::from_le_bytes(&[0x01, 0x02, 0x03, 0x84, 0xff, 0xff, 0xff, 0xff], 2, 32)
        .unwrap();
    assert_eq!(s, AudioSamples::StereoI32(vec![[-2080177663, -1]]));
    let m = AudioSamples::from_le_bytes(&[0x34, 0x12, 0x00, 0x80], 1, 16).unwrap();
    assert_eq!(m, AudioSamples::MonoI16(vec![0x1234, i16::MIN]));
    let st = AudioSamples::from_le_bytes(&[1, 2, 3], 2, 8).unwrap();
    assert_eq!(st, AudioSamples::StereoI8(vec![[1, 2]]));
}

#[test]
fn unsupported_pairs_are_refused() {
    assert_eq!(AudioSamples::from_le_bytes(&[0; 4], 0, 16), Err(WavError::InvalidWAudioFormat));
    assert_eq!(AudioSamples::from_le_bytes(&[0; 4], 1, 12), Err(WavError::InvalidWAudioFormat));
}

#[test]
fn encoding_is_little_endian() {
    let s = AudioSamples::StereoI16(vec![[0x1234, -2]]);
    assert_eq!(s.to_le_bytes_vector(), vec![0x34, 0x12, 0xfe, 0xff]);
    let m = AudioSamples::MonoI32(vec![0x01020304]);
    assert_eq!(m.to_le_bytes_vector(), vec![4, 3, 2, 1]);
}

#[test]
fn channels_widen_to_i32() {
    let mono = AudioSamples::MonoI8(vec![-3, 4]);
    assert_eq!(mono.to_i32_mono(), Ok(vec![-3, 4]));
    assert_eq!(mono.to_i32_stereo(), Err(WavError::InvalidWAudioFormat));
    let stereo = AudioSamples::StereoI16(vec![[1, -1], [2, -2]]);
    assert_eq!(stereo.to_i32_stereo(), Ok((vec![1, 2], vec![-1, -2])));
    assert_eq!(stereo.to_i32_mono(), Err(WavError::InvalidWAudioFormat));
}

#[test]
fn narrowing_wraps() {
    let s = AudioSamples::from_i64_mono(&[40000, -1, 70000], 16).unwrap();
    assert_eq!(s, AudioSamples::MonoI16(vec![-25536, -1, 4464]));
    let b = AudioSamples::from_i64_mono(&[300, 128], 8).unwrap();
    assert_eq!(b, AudioSamples::MonoI8(vec![44, -128]));
    let w = AudioSamples::from_i64_mono(&[1i64 << 32], 32).unwrap();
    assert_eq!(w, AudioSamples::MonoI32(vec![0]));
    assert_eq!(AudioSamples::from_i64_mono(&[1], 24), Err(WavError::InvalidWAudioFormat));
}

#[test]
fn stereo_rebuild_pairs_channels() {
    let s = AudioSamples::from_i64_stereo(&[1, 2], &[-1, 200], 8).unwrap();
    assert_eq!(s, AudioSamples::StereoI8(vec![[1, -1], [2, -56]]));
    let t = AudioSamples::from_i64_stereo(&[7], &[8], 32).unwrap();
    assert_eq!(t, AudioSamples::StereoI32(vec![[7, 8]]));
}

#[test]
fn stereo_length_mismatch_is_refused() {
    assert_eq!(
        AudioSamples::from_i64_stereo(&[1, 2, 3], &[1, 2], 16),
        Err(WavError::LengthMismatch)
    );
    assert_eq!(
        AudioSamples::from_i64_stereo(&[1], &[1, 2], 12),
        Err(WavError::LengthMismatch)
    );
    assert_eq!(
        AudioSamples::from_i64_stereo(&[1], &[2], 12),
        Err(WavError::InvalidWAudioFormat)
    );
}

#[test]
fn playback_samples_are_sixteen_bit() {
    assert_eq!(
        WavSource::from_audio_samples(AudioSamples::StereoI8(vec![[-2, 1]])),
        vec![-512, 256]
    );
    assert_eq!(
        WavSource::from_audio_samples(AudioSamples::MonoI32(vec![100000, -100000, 12])),
        vec![32767, -32768, 12]
    );
    assert_eq!(
        WavSource::from_audio_samples(AudioSamples::StereoI16(vec![[1, 2], [3, 4]])),
        vec![1, 2, 3, 4]
    );
}

#[test]
fn playback_source_keeps_layout() {
    let bytes = {
        let f = WavFile::from_subchunks(
            wav_denoise::new_head(40),
            wav_denoise::new_fmt(2, 22050, 8),
            wav_denoise::new_data(4, AudioSamples::StereoI8(vec![[1, 2], [3, 4]])),
        );
        f.create_le_bytes_vector()
    };
    let source = WavSource::from_wav_file(WavFile::from_bytes(&bytes).unwrap());
    assert_eq!(source.sample_rate, 22050);
    assert_eq!(source.channels, 2);
    assert_eq!(source.samples, vec![256, 512, 768, 1024]);
}
