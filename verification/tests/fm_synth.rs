use fm_synth::synth::{sin_turns, FmSynth, FX_HALF, FX_ONE};
use fm_synth::wav::{parse_wav, quantize, WavEncoder, WavError, WavSpec};
use fm_synth::pipeline::{
    synthesize, total_samples, DEFAULT_CARRIER_FREQ, DEFAULT_DURATION_MS, DEFAULT_MODULATION_INDEX,
    DEFAULT_MODULATOR_FREQ, DEFAULT_SAMPLE_RATE,
};

fn example_synth() -> FmSynth {
    FmSynth::new(
        DEFAULT_CARRIER_FREQ,
        DEFAULT_MODULATOR_FREQ,
        DEFAULT_MODULATION_INDEX,
    )
}

#[test]
fn first_sample_is_zero() {
    let synth = example_synth();
    assert_eq!(synth.next_sample(0, DEFAULT_SAMPLE_RATE), 0);
    assert_eq!(quantize(synth.next_sample(0, DEFAULT_SAMPLE_RATE)), 0);
}

#[test]
fn generator_is_deterministic() {
    let synth = example_synth();
    for n in [0u64, 1, 17, 44100, 220499] {
        let a = synth.next_sample(n, DEFAULT_SAMPLE_RATE);
        let b = synth.next_sample(n, DEFAULT_SAMPLE_RATE);
        assert_eq!(a, b);
    }
}

#[test]
fn generator_stays_in_unit_range() {
    let synth = example_synth();
    for n in 0..10_000u64 {
        let s = synth.next_sample(n, DEFAULT_SAMPLE_RATE);
        assert!(-FX_ONE <= s && s <= FX_ONE);
    }
}

#[test]
fn zero_index_gives_pure_carrier() {
    let synth = FmSynth::new(DEFAULT_CARRIER_FREQ, DEFAULT_MODULATOR_FREQ, 0);
    for n in [0u64, 1, 100, 44100] {
        let phase =
            (DEFAULT_CARRIER_FREQ as u64) * n / (DEFAULT_SAMPLE_RATE as u64) % (FX_ONE as u64);
        assert_eq!(synth.next_sample(n, DEFAULT_SAMPLE_RATE), sin_turns(phase));
    }
}

#[test]
fn zero_frequencies_give_silence() {
    let synth = FmSynth::new(0, 0, 0);
    for n in [0u64, 1, 12345] {
        assert_eq!(synth.next_sample(n, DEFAULT_SAMPLE_RATE), 0);
    }
}

#[test]
fn sine_matches_reference_sine() {
    // The fixed-point sine is Bhaskara I's approximation: within 0.002 of the
    // real sine everywhere, and exact at 0, 1/4, 1/2 and 3/4 turns.
    let one = FX_ONE as f64;
    for i in 0..4096u64 {
        let u = i * (FX_ONE as u64) / 4096;
        let got = sin_turns(u) as f64 / one;
        let want = (2.0 * std::f64::consts::PI * (u as f64) / one).sin();
        assert!((got - want).abs() < 0.002, "phase {}: {} vs {}", u, got, want);
    }
    assert_eq!(sin_turns(0), 0);
    assert_eq!(sin_turns((FX_ONE / 4) as u64), FX_ONE);
    assert_eq!(sin_turns((FX_HALF) as u64), 0);
    assert_eq!(sin_turns((3 * FX_ONE / 4) as u64), -FX_ONE);
}

#[test]
fn quantize_boundaries() {
    assert_eq!(quantize(FX_ONE), 32767);
    assert_eq!(quantize(-FX_ONE), -32767);
    assert_eq!(quantize(0), 0);
    // Clamping: values past full scale saturate instead of overflowing.
    assert_eq!(quantize(2 * FX_ONE), 32767);
    assert_eq!(quantize(-2 * FX_ONE), -32767);
    assert_eq!(quantize(i64::MAX), 32767);
    assert_eq!(quantize(i64::MIN), -32767);
}

#[test]
fn quantize_rounds_to_nearest() {
    // 0.5 * 32767 = 16383.5, which rounds away from zero to 16384.
    assert_eq!(quantize(FX_HALF), 16384);
    assert_eq!(quantize(-FX_HALF), -16384);
    // 0.25 * 32767 = 8191.75, which rounds to 8192.
    assert_eq!(quantize(FX_ONE / 4), 8192);
}

#[test]
fn total_samples_example_run() {
    assert_eq!(total_samples(44100, 5000), 220_500);
    assert_eq!(total_samples(44100, 1000), 44_100);
    assert_eq!(total_samples(8000, 1), 8);
}

fn mono_16(sample_rate: u32) -> WavSpec {
    WavSpec {
        channels: 1,
        sample_rate,
        bits_per_sample: 16,
    }
}

#[test]
fn encoder_writes_exact_header() {
    let mut enc = WavEncoder::new(mono_16(44100)).unwrap();
    for s in [0i16, 1, -1] {
        enc.write_sample(s).unwrap();
    }
    let bytes = enc.finalize().unwrap();
    assert_eq!(bytes.len(), 44 + 6);
    assert_eq!(&bytes[0..4], b"RIFF");
    assert_eq!(u32::from_le_bytes([bytes[4], bytes[5], bytes[6], bytes[7]]), 42);
    assert_eq!(&bytes[8..12], b"WAVE");
    assert_eq!(&bytes[12..16], b"fmt ");
    assert_eq!(u32::from_le_bytes([bytes[16], bytes[17], bytes[18], bytes[19]]), 16);
    assert_eq!(u16::from_le_bytes([bytes[20], bytes[21]]), 1);
    assert_eq!(u16::from_le_bytes([bytes[22], bytes[23]]), 1);
    assert_eq!(u32::from_le_bytes([bytes[24], bytes[25], bytes[26], bytes[27]]), 44100);
    assert_eq!(u32::from_le_bytes([bytes[28], bytes[29], bytes[30], bytes[31]]), 88200);
    assert_eq!(u16::from_le_bytes([bytes[32], bytes[33]]), 2);
    assert_eq!(u16::from_le_bytes([bytes[34], bytes[35]]), 16);
    assert_eq!(&bytes[36..40], b"data");
    // The declared data length is exactly what was written: three samples.
    assert_eq!(u32::from_le_bytes([bytes[40], bytes[41], bytes[42], bytes[43]]), 6);
    // Little-endian two's-complement sample data.
    assert_eq!(&bytes[44..50], &[0x00, 0x00, 0x01, 0x00, 0xFF, 0xFF]);
}

#[test]
fn encoder_rejects_inconsistent_format() {
    let r = WavEncoder::new(WavSpec {
        channels: 0,
        sample_rate: 44100,
        bits_per_sample: 16,
    });
    assert_eq!(r.unwrap_err(), WavError::Unsupported);
    let r = WavEncoder::new(WavSpec {
        channels: 1,
        sample_rate: 44100,
        bits_per_sample: 8,
    });
    assert_eq!(r.unwrap_err(), WavError::Unsupported);
    let r = WavEncoder::new(WavSpec {
        channels: 1,
        sample_rate: 0,
        bits_per_sample: 16,
    });
    assert_eq!(r.unwrap_err(), WavError::Unsupported);
}

#[test]
fn encoder_rejects_use_after_finalize() {
    let mut enc = WavEncoder::new(mono_16(8000)).unwrap();
    enc.write_sample(7).unwrap();
    let bytes = enc.finalize().unwrap();
    assert_eq!(bytes.len(), 46);
    assert_eq!(enc.write_sample(8).unwrap_err(), WavError::Usage);
    assert_eq!(enc.finalize().unwrap_err(), WavError::Usage);
}

#[test]
fn decode_recovers_what_was_encoded() {
    let samples = [0i16, 1, -1, 32767, -32767, 123, -456, -32768];
    let mut enc = WavEncoder::new(mono_16(22050)).unwrap();
    for s in samples {
        enc.write_sample(s).unwrap();
    }
    let bytes = enc.finalize().unwrap();
    let (format, decoded) = parse_wav(&bytes).unwrap();
    assert_eq!(format, mono_16(22050));
    assert_eq!(decoded, samples.to_vec());
}

#[test]
fn decode_rejects_malformed_bytes() {
    assert!(parse_wav(&Vec::new()).is_none());
    assert!(parse_wav(&vec![0u8; 44]).is_none());
    let mut enc = WavEncoder::new(mono_16(44100)).unwrap();
    enc.write_sample(5).unwrap();
    let mut bytes = enc.finalize().unwrap();
    // Truncating the data section breaks the declared lengths.
    bytes.pop();
    assert!(parse_wav(&bytes).is_none());
}

#[test]
fn end_to_end_example_run() {
    let synth = example_synth();
    let n = total_samples(DEFAULT_SAMPLE_RATE, DEFAULT_DURATION_MS);
    assert_eq!(n, 220_500);
    let bytes = synthesize(&synth, DEFAULT_SAMPLE_RATE, n);
    // A minimal 44-byte header followed by two bytes per sample.
    assert_eq!(bytes.len(), 44 + 220_500 * 2);
    let (format, samples) = parse_wav(&bytes).unwrap();
    assert_eq!(format, mono_16(44100));
    assert_eq!(samples.len(), 220_500);
    assert_eq!(samples[0], 0);
    for (k, s) in samples.iter().enumerate().take(1000) {
        assert_eq!(*s, quantize(synth.next_sample(k as u64, DEFAULT_SAMPLE_RATE)));
    }
}

#[test]
fn hound_decodes_our_files() {
    let synth = example_synth();
    let bytes = synthesize(&synth, DEFAULT_SAMPLE_RATE, 1000);
    let mut reader = hound::WavReader::new(std::io::Cursor::new(&bytes)).unwrap();
    let spec = reader.spec();
    assert_eq!(spec.channels, 1);
    assert_eq!(spec.sample_rate, 44100);
    assert_eq!(spec.bits_per_sample, 16);
    assert_eq!(spec.sample_format, hound::SampleFormat::Int);
    assert_eq!(reader.len(), 1000);
    let decoded: Vec<i16> = reader.samples::<i16>().map(|s| s.unwrap()).collect();
    let (_, ours) = parse_wav(&bytes).unwrap();
    assert_eq!(decoded, ours);
    assert_eq!(decoded[0], 0);
}
