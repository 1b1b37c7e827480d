use handy_net::pcm::{pcm_bytes, pcm_samples};
use handy_net::wav::{
    assemble_wav, decode_wav_bytes, encode_wav_bytes, is_wav, mono_frames, recording_format,
    sample_scale, verify_sample_count, DecodedWav, SampleScale, WavError, WavFormat,
    TARGET_SAMPLE_RATE,
};

fn quantized(samples: &[f32]) -> Vec<i16> {
    samples
        .iter()
        .map(|sample| (sample.clamp(-1.0, 1.0) * i16::MAX as f32) as i16)
        .collect()
}

/// The samples of a decoded file between -1 and 1, channels interleaved.
fn scaled(wav: &DecodedWav) -> Vec<f32> {
    let SampleScale::Integer { full_scale } = wav.scale else {
        panic!("the samples are floating-point numbers");
    };
    wav.integers
        .iter()
        .map(|&sample| sample as f32 / full_scale as f32)
        .collect()
}

fn downmixed(samples: &[f32], channels: u16) -> Vec<f32> {
    mono_frames(samples.len(), channels)
        .into_iter()
        .map(|(start, end)| samples[start..end].iter().sum::<f32>() / (end - start) as f32)
        .collect()
}

fn resampled(samples: &[f32], from_hz: u32, to_hz: u32) -> Vec<f32> {
    let ratio = to_hz as f64 / from_hz as f64;
    let length = (samples.len() as f64 * ratio).round() as usize;
    let last = samples.len() - 1;
    (0..length)
        .map(|i| {
            let at = i as f64 / ratio;
            let left = at.floor() as usize;
            let (a, b) = (samples[left.min(last)], samples[(left + 1).min(last)]);
            a + (b - a) * (at - left as f64) as f32
        })
        .collect()
}

fn wav(spec: hound::WavSpec, samples: &[i32]) -> Vec<u8> {
    let mut buffer = std::io::Cursor::new(Vec::<u8>::new());
    {
        let mut writer = hound::WavWriter::new(&mut buffer, spec).unwrap();
        for &sample in samples {
            writer.write_sample(sample).unwrap();
        }
        writer.finalize().unwrap();
    }
    buffer.into_inner()
}

#[test]
fn wav_bytes_round_trip_preserves_samples() {
    let original: Vec<f32> = (0..1600).map(|i| (i as f32 / 100.0).sin() * 0.5).collect();
    let decoded = decode_wav_bytes(&encode_wav_bytes(&quantized(&original)).unwrap()).unwrap();
    let decoded = scaled(&decoded);

    assert_eq!(decoded.len(), original.len());
    for (a, b) in original.iter().zip(decoded.iter()) {
        assert!((a - b).abs() < 1e-3, "{a} vs {b}");
    }
}

#[test]
fn stereo_44100_is_downmixed_and_resampled() {
    let spec = hound::WavSpec {
        channels: 2,
        sample_rate: 44_100,
        bits_per_sample: 16,
        sample_format: hound::SampleFormat::Int,
    };
    let mut samples: Vec<i32> = Vec::new();
    for _ in 0..44_100 {
        samples.push((0.5 * i16::MAX as f32) as i32);
        samples.push((0.1 * i16::MAX as f32) as i32);
    }

    let decoded = decode_wav_bytes(&wav(spec, &samples)).unwrap();
    assert_eq!(decoded.format.channels, 2);
    assert_eq!(decoded.format.sample_rate, 44_100);
    let mono = downmixed(&scaled(&decoded), decoded.format.channels);
    let decoded = resampled(&mono, decoded.format.sample_rate, TARGET_SAMPLE_RATE);

    assert!(
        decoded.len().abs_diff(TARGET_SAMPLE_RATE as usize) <= 1,
        "got {} samples",
        decoded.len()
    );
    for &sample in &decoded[100..decoded.len() - 100] {
        assert!((sample - 0.3).abs() < 1e-2, "got {sample}");
    }
}

#[test]
fn rejects_non_wav_bytes() {
    assert!(decode_wav_bytes(b"this is not a wav file at all").is_err());
}

#[test]
fn pcm_round_trips_through_the_wire_format() {
    let samples = [0.0f32, 0.5, -0.5, 1.0, -1.0];
    let bytes = pcm_bytes(&quantized(&samples));
    assert_eq!(bytes.len(), samples.len() * 2);

    let decoded: Vec<f32> = bytes
        .chunks_exact(2)
        .map(|pair| i16::from_le_bytes([pair[0], pair[1]]) as f32 / i16::MAX as f32)
        .collect();
    for (original, decoded) in samples.iter().zip(decoded.iter()) {
        assert!((original - decoded).abs() < 1e-3, "{original} vs {decoded}");
    }
}

#[test]
fn every_sample_survives_the_wire() {
    let samples: Vec<i16> = (i16::MIN..=i16::MAX).collect();
    let bytes = pcm_bytes(&samples);
    let expected: Vec<u8> = samples
        .iter()
        .flat_map(|sample| sample.to_le_bytes())
        .collect();
    assert_eq!(bytes, expected);
    assert_eq!(pcm_samples(&bytes), Some(samples));
    assert_eq!(pcm_samples(&[]), Some(vec![]));
    assert_eq!(pcm_samples(&[1, 2, 3]), None);
}

#[test]
fn an_encoded_file_is_laid_out_as_expected() {
    let bytes = encode_wav_bytes(&[1, -2]).unwrap();
    let expected: Vec<u8> = vec![
        0x52, 0x49, 0x46, 0x46, 40, 0, 0, 0, 0x57, 0x41, 0x56, 0x45, 0x66, 0x6d, 0x74, 0x20, 16, 0,
        0, 0, 1, 0, 1, 0, 0x80, 0x3e, 0, 0, 0, 0x7d, 0, 0, 2, 0, 16, 0, 0x64, 0x61, 0x74, 0x61, 4,
        0, 0, 0, 1, 0, 0xfe, 0xff,
    ];
    assert_eq!(bytes, expected);
    assert!(is_wav(&bytes));
}

#[test]
fn an_encoded_file_gives_back_its_samples() {
    for samples in [vec![], vec![7i16], (i16::MIN..=i16::MAX).collect::<Vec<i16>>()] {
        let wav = decode_wav_bytes(&encode_wav_bytes(&samples).unwrap()).unwrap();
        let expected: Vec<i32> = samples.iter().map(|&sample| i32::from(sample)).collect();
        assert_eq!(wav.integers, expected);
        assert_eq!(wav.format, recording_format());
        assert_eq!(wav.scale, SampleScale::Integer { full_scale: 0x8000 });
    }
}

#[test]
fn other_depths_are_decoded_too() {
    for (bits, full_scale) in [(8u16, 0x80u64), (24, 0x80_0000), (32, 0x8000_0000)] {
        let spec = hound::WavSpec {
            channels: 1,
            sample_rate: 8_000,
            bits_per_sample: bits,
            sample_format: hound::SampleFormat::Int,
        };
        let decoded = decode_wav_bytes(&wav(spec, &[0, 5, -100, 100])).unwrap();
        assert_eq!(decoded.integers, [0, 5, -100, 100]);
        assert_eq!(decoded.scale, SampleScale::Integer { full_scale });
        assert_eq!(decoded.format.bits_per_sample, bits);
    }
}

#[test]
fn floating_point_samples_are_left_to_the_caller() {
    let spec = hound::WavSpec {
        channels: 1,
        sample_rate: 16_000,
        bits_per_sample: 32,
        sample_format: hound::SampleFormat::Float,
    };
    let mut buffer = std::io::Cursor::new(Vec::<u8>::new());
    {
        let mut writer = hound::WavWriter::new(&mut buffer, spec).unwrap();
        writer.write_sample(0.5f32).unwrap();
        writer.finalize().unwrap();
    }
    let decoded = decode_wav_bytes(&buffer.into_inner()).unwrap();
    assert!(decoded.format.is_float);
    assert_eq!(decoded.scale, SampleScale::Float);
    assert!(decoded.integers.is_empty());
}

#[test]
fn a_truncated_file_is_refused() {
    let bytes = encode_wav_bytes(&[1, 2, 3]).unwrap();
    for length in 0..bytes.len() {
        assert!(decode_wav_bytes(&bytes[..length]).is_err(), "{length}");
    }
}

#[test]
fn the_header_decides_how_samples_are_scaled() {
    let format = WavFormat {
        channels: 1,
        sample_rate: 16_000,
        bits_per_sample: 16,
        is_float: false,
    };
    assert!(matches!(
        sample_scale(WavFormat { channels: 0, ..format }),
        Err(WavError::NoChannels)
    ));
    assert!(matches!(
        sample_scale(WavFormat { bits_per_sample: 0, ..format }),
        Err(WavError::UnsupportedDepth { bits: 0 })
    ));
    assert!(matches!(
        sample_scale(WavFormat { bits_per_sample: 65, ..format }),
        Err(WavError::UnsupportedDepth { bits: 65 })
    ));
    assert!(matches!(
        sample_scale(WavFormat { bits_per_sample: 1, ..format }),
        Ok(SampleScale::Integer { full_scale: 1 })
    ));
    assert!(matches!(
        sample_scale(WavFormat { bits_per_sample: 64, ..format }),
        Ok(SampleScale::Integer { full_scale: 0x8000_0000_0000_0000 })
    ));
    assert!(matches!(
        sample_scale(WavFormat { is_float: true, ..format }),
        Ok(SampleScale::Float)
    ));

    let error = assemble_wav(format, Err("too short".to_string())).unwrap_err();
    assert_eq!(error.message(), "too short");
    let error = assemble_wav(WavFormat { channels: 0, ..format }, Ok(vec![1])).unwrap_err();
    assert_eq!(error.message(), "WAV declares zero channels");
    let error = assemble_wav(WavFormat { bits_per_sample: 99, ..format }, Ok(vec![1])).unwrap_err();
    assert_eq!(
        error.message(),
        "WAV declares an unsupported sample size of 99 bits"
    );
}

#[test]
fn a_file_with_the_wrong_number_of_samples_is_noticed() {
    assert!(verify_sample_count(1600, 1600).is_ok());
    let error = verify_sample_count(1600, 12).unwrap_err();
    assert_eq!(
        error.message(),
        "WAV sample count mismatch: expected 1600, got 12"
    );
}

#[test]
fn frames_hold_one_sample_per_channel() {
    assert_eq!(mono_frames(6, 2), [(0, 2), (2, 4), (4, 6)]);
    assert_eq!(mono_frames(5, 3), [(0, 3), (3, 5)]);
    assert_eq!(mono_frames(2, 1), [(0, 1), (1, 2)]);
    assert_eq!(mono_frames(0, 4), []);
}

#[test]
fn wav_files_are_known_by_their_first_bytes() {
    assert!(is_wav(b"RIFF....WAVE"));
    assert!(!is_wav(b"RIFF....WAV"));
    assert!(!is_wav(b"RIFX....WAVE"));
    assert!(!is_wav(b"RIFF....WAVf"));
    assert!(!is_wav(b""));
}

#[test]
fn every_sample_is_in_one_frame() {
    for (count, channels) in [(1usize, 1u16), (7, 2), (9, 3), (10, 4)] {
        let frames = mono_frames(count, channels);
        for sample in 0..count {
            let homes = frames
                .iter()
                .filter(|&&(start, end)| start <= sample && sample < end)
                .count();
            assert_eq!(homes, 1);
        }
    }
}

#[test]
fn bytes_that_do_not_begin_as_a_wav_file_are_refused() {
    let wav = encode_wav_bytes(&[1, 2]).unwrap();
    for at in [0, 3, 8, 11] {
        let mut broken = wav.clone();
        broken[at] ^= 1;
        assert!(!is_wav(&broken));
        assert!(decode_wav_bytes(&broken).is_err());
    }
    assert!(decode_wav_bytes(b"").is_err());
    assert!(decode_wav_bytes(b"RIFF").is_err());
}
