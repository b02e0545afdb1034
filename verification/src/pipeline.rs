//! Orchestration: sample-count computation and the one-pass batch transform
//! from synthesis parameters to complete WAV file bytes.

use vstd::prelude::*;
use crate::synth::{FmSynth, MAX_SAMPLE_INDEX};
use crate::wav::{
    WavSpec, WavEncoder, quantize, spec_quantize, spec_pcm_bytes, spec_wav_file,
    spec_sample_bytes, MAX_SAMPLES,
};

verus! {

/// The carrier frequency of the example tone: 440 Hz, in fixed point.
pub const DEFAULT_CARRIER_FREQ: i64 = 440 * 0x10_0000;

/// The modulator frequency of the example tone: 220 Hz, in fixed point.
pub const DEFAULT_MODULATOR_FREQ: i64 = 220 * 0x10_0000;

/// The modulation index of the example tone: 100, in fixed point.
pub const DEFAULT_MODULATION_INDEX: i64 = 100 * 0x10_0000;

/// The sample rate of the example run, in samples per second.
pub const DEFAULT_SAMPLE_RATE: u32 = 44100;

/// The duration of the example run, in milliseconds.
pub const DEFAULT_DURATION_MS: u32 = 5000;

/// The number of samples for a duration given in milliseconds:
/// `round(sample_rate * duration_seconds)`.
pub open spec fn spec_total_samples(sample_rate: u32, duration_ms: u32) -> int {
    (sample_rate * duration_ms + 500) / 1000
}

/// Compute the sample count for a run: the sample rate times the duration,
/// rounded to the nearest whole sample.
pub fn total_samples(sample_rate: u32, duration_ms: u32) -> (n: u64)
    ensures
        n == spec_total_samples(sample_rate, duration_ms),
{
    proof {
        assert(0 <= (sample_rate as int) * (duration_ms as int) <= 0xFFFF_FFFFint
            * 0xFFFF_FFFFint) by (nonlinear_arith)
            requires
                0 <= sample_rate <= 0xFFFF_FFFF,
                0 <= duration_ms <= 0xFFFF_FFFF,
        ;
    }
    let p: u128 = (sample_rate as u128) * (duration_ms as u128) + 500;
    proof {
        vstd::arithmetic::div_mod::lemma_div_is_ordered(
            p as int,
            0xFFFF_FFFFint * 0xFFFF_FFFFint + 500int,
            1000,
        );
    }
    (p / 1000) as u64
}

/// The format every run of the pipeline writes: mono 16-bit integer PCM.
pub open spec fn spec_mono16(sample_rate: u32) -> WavSpec {
    WavSpec { channels: 1, sample_rate, bits_per_sample: 16 }
}

/// The quantized sample at ordinal `k` of a run.
pub open spec fn spec_synth_sample(s: FmSynth, rate: int, k: int) -> i16 {
    spec_quantize(s.spec_sample(k, rate)) as i16
}

/// The whole quantized sequence of a run of `n` samples.
pub open spec fn spec_synth_samples(s: FmSynth, rate: int, n: int) -> Seq<i16> {
    Seq::new(n as nat, |k: int| spec_synth_sample(s, rate, k))
}

/// A synthesized file decodes to exactly what went into it: a conformant
/// decoder recovers the mono 16-bit format at the run's sample rate and the
/// run's quantized samples, value for value — never more samples than were
/// written, and never fewer.
pub proof fn lemma_synthesized_file_decodes(s: FmSynth, sample_rate: u32, n: int)
    requires
        1 <= sample_rate <= 0x7FFF_FFFF,
        0 <= n <= MAX_SAMPLE_INDEX,
    ensures
        crate::wav::spec_parse(
            spec_wav_file(
                spec_mono16(sample_rate),
                spec_pcm_bytes(spec_synth_samples(s, sample_rate as int, n)),
            ),
        ) == Some((spec_mono16(sample_rate), spec_synth_samples(s, sample_rate as int, n))),
{
    assert(spec_mono16(sample_rate).valid());
    assert(spec_synth_samples(s, sample_rate as int, n).len() <= MAX_SAMPLES);
    crate::wav::lemma_wav_round_trip(
        spec_mono16(sample_rate),
        spec_synth_samples(s, sample_rate as int, n),
    );
}

/// Run the whole batch in one pass: generate, quantize and append each
/// sample in order, then finalize. The result is the complete file holding
/// exactly the `n_samples` quantized generator samples, mono 16-bit PCM at
/// `sample_rate`.
pub fn synthesize(synth: &FmSynth, sample_rate: u32, n_samples: u64) -> (bytes: Vec<u8>)
    requires
        synth.wf(),
        1 <= sample_rate <= 0x7FFF_FFFF,
        n_samples <= MAX_SAMPLE_INDEX,
    ensures
        bytes@ == spec_wav_file(
            spec_mono16(sample_rate),
            spec_pcm_bytes(spec_synth_samples(*synth, sample_rate as int, n_samples as int)),
        ),
{
    let format = WavSpec { channels: 1, sample_rate, bits_per_sample: 16 };
    proof {
        assert(format.valid());
    }
    let mut enc = match WavEncoder::new(format) {
        Ok(e) => e,
        Err(_) => {
            proof {
                assert(false);
            }
            return Vec::new();
        },
    };
    let mut k: u64 = 0;
    while k < n_samples
        invariant
            synth.wf(),
            1 <= sample_rate <= 0x7FFF_FFFF,
            n_samples <= MAX_SAMPLE_INDEX,
            k <= n_samples,
            enc.wf(),
            !enc.finalized,
            enc.format == spec_mono16(sample_rate),
            enc.samples_written == k,
            enc.data@ == spec_pcm_bytes(
                spec_synth_samples(*synth, sample_rate as int, k as int),
            ),
        decreases n_samples - k,
    {
        let s = synth.next_sample(k, sample_rate);
        let q = quantize(s);
        let r = enc.write_sample(q);
        proof {
            let sk = spec_synth_samples(*synth, sample_rate as int, k as int);
            let sk1 = spec_synth_samples(*synth, sample_rate as int, k + 1int);
            assert(sk1.last() == spec_synth_sample(*synth, sample_rate as int, k as int));
            assert(sk1.last() == q);
            assert(sk1.drop_last() =~= sk);
            assert(spec_pcm_bytes(sk1) == spec_pcm_bytes(sk) + spec_sample_bytes(q));
        }
        k = k + 1;
    }
    let bytes = match enc.finalize() {
        Ok(v) => v,
        Err(_) => {
            proof {
                assert(false);
            }
            return Vec::new();
        },
    };
    bytes
}

} // verus!
