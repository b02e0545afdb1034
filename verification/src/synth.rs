//! Two-operator FM synthesis in fixed-point arithmetic.
//!
//! Amplitudes and phases are integers scaled by `FX_ONE`: an amplitude `a`
//! stands for the real number `a / FX_ONE`, and a phase `p` stands for
//! `p / FX_ONE` turns (one turn is a full period, `2*pi` radians). The sine
//! of a phase is computed with Bhaskara I's rational approximation, which is
//! exact at every quarter turn and stays within the unit range everywhere.

use vstd::prelude::*;
use vstd::arithmetic::div_mod::{
    lemma_div_is_ordered, lemma_div_by_multiple, lemma_small_mod, lemma_mod_bound,
    lemma_sub_mod_noop, lemma_mod_multiples_vanish, lemma_div_of0,
};

verus! {

/// The fixed-point unit: amplitudes and phases are scaled by this value.
pub const FX_ONE: i64 = 0x10_0000;

/// Half of `FX_ONE`: half a turn, or the amplitude one half.
pub const FX_HALF: i64 = 0x8_0000;

/// `1 / (2*pi)` in fixed point: `round(FX_ONE / (2*pi))`.
pub const INV_TWO_PI: i64 = 166_886;

/// Largest frequency accepted, in fixed-point hertz (65536 Hz).
pub const FREQ_MAX: i64 = 0x10_0000_0000;

/// Largest modulation index accepted, in fixed point.
pub const INDEX_MAX: i64 = 0x10_0000_0000;

/// Largest sample ordinal accepted by the generator.
pub const MAX_SAMPLE_INDEX: u64 = 0x400_0000;

/// Bhaskara I's approximation of `sin(2*pi * v / FX_ONE) * FX_ONE` on the
/// first half turn, `0 <= v < FX_HALF`. With `w = v*(FX_HALF - v)/FX_ONE`,
/// the value is `64*w*FX_ONE / (5*FX_ONE - 16*w)`.
pub open spec fn spec_sin_arc(v: int) -> int {
    let w = v * (FX_HALF - v) / (FX_ONE as int);
    64 * w * FX_ONE / (5 * FX_ONE - 16 * w)
}

/// Sine of a phase `u` given in fixed-point turns, `0 <= u < FX_ONE`,
/// scaled by `FX_ONE`: the first half turn is the positive arc, the second
/// half turn its mirror image.
pub open spec fn spec_sin_turns(u: int) -> int {
    if u < FX_HALF {
        spec_sin_arc(u)
    } else {
        -spec_sin_arc(u - FX_HALF)
    }
}

proof fn lemma_arc_product_bound(v: int)
    requires
        0 <= v < FX_HALF,
    ensures
        0 <= v * (FX_HALF - v) <= 0x10_0000_0000,
{
    assert(0 <= v * (FX_HALF - v) <= 0x10_0000_0000) by (nonlinear_arith)
        requires
            0 <= v < 0x8_0000,
    {
        assert((v - 0x4_0000) * (v - 0x4_0000) >= 0);
    }
}

proof fn lemma_arc_value_bound(w: int)
    requires
        0 <= w <= 0x1_0000,
    ensures
        0 <= 64 * w * FX_ONE / (5 * FX_ONE - 16 * w) <= FX_ONE,
        w == 0 ==> 64 * w * FX_ONE / (5 * FX_ONE - 16 * w) == 0,
{
    assert(0 <= 64 * w * FX_ONE) by (nonlinear_arith)
        requires
            0 <= w,
    ;
    assert(64 * w * FX_ONE <= (FX_ONE as int) * (5 * FX_ONE - 16 * w)) by (nonlinear_arith)
        requires
            0 <= w <= 0x1_0000,
    ;
    lemma_div_is_ordered(0, 64 * w * FX_ONE, 5 * FX_ONE - 16 * w);
    lemma_div_of0(5 * FX_ONE - 16 * w);
    lemma_div_is_ordered(
        64 * w * FX_ONE,
        (FX_ONE as int) * (5 * FX_ONE - 16 * w),
        5 * FX_ONE - 16 * w,
    );
    lemma_div_by_multiple(FX_ONE as int, 5 * FX_ONE - 16 * w);
}

fn sin_arc(v: u64) -> (s: i64)
    requires
        v < FX_HALF,
    ensures
        s == spec_sin_arc(v as int),
        0 <= s <= FX_ONE,
        v == 0 ==> s == 0,
{
    proof {
        lemma_arc_product_bound(v as int);
    }
    let w: u64 = v * (FX_HALF as u64 - v) / (FX_ONE as u64);
    proof {
        lemma_div_is_ordered(v * (FX_HALF - v), 0x10_0000_0000, FX_ONE as int);
        lemma_div_by_multiple(0x1_0000, FX_ONE as int);
        assert(w <= 0x1_0000);
        lemma_arc_value_bound(w as int);
        if v == 0 {
            assert(0int * (FX_HALF - 0) == 0) by (nonlinear_arith);
            lemma_div_of0(FX_ONE as int);
        }
    }
    let num: u64 = 64 * w * (FX_ONE as u64);
    let den: u64 = 5 * (FX_ONE as u64) - 16 * w;
    let s64: u64 = num / den;
    s64 as i64
}

/// Sine of a reduced fixed-point phase: `u` in turns scaled by `FX_ONE`.
pub fn sin_turns(u: u64) -> (s: i64)
    requires
        u < FX_ONE,
    ensures
        s == spec_sin_turns(u as int),
        -FX_ONE <= s <= FX_ONE,
        u == 0 ==> s == 0,
{
    if u < (FX_HALF as u64) {
        sin_arc(u)
    } else {
        let a = sin_arc(u - (FX_HALF as u64));
        -a
    }
}

/// The synthesis parameters: carrier frequency and modulator frequency in
/// fixed-point hertz, and the dimensionless modulation index in fixed point.
/// All three are fixed at construction and never change.
#[derive(Clone, Copy, Debug, PartialEq, Eq, Structural)]
pub struct FmSynth {
    pub carrier_freq: i64,
    pub modulator_freq: i64,
    pub modulation_index: i64,
}

impl FmSynth {
    /// Parameter bounds under which every phase computation fits in 64 bits.
    /// Zero frequencies and a zero index are degenerate but valid: they give
    /// a pure carrier tone or silence.
    pub open spec fn wf(self) -> bool {
        &&& 0 <= self.carrier_freq <= FREQ_MAX
        &&& 0 <= self.modulator_freq <= FREQ_MAX
        &&& 0 <= self.modulation_index <= INDEX_MAX
    }

    pub fn new(carrier_freq: i64, modulator_freq: i64, modulation_index: i64) -> (s: FmSynth)
        requires
            0 <= carrier_freq <= FREQ_MAX,
            0 <= modulator_freq <= FREQ_MAX,
            0 <= modulation_index <= INDEX_MAX,
        ensures
            s.carrier_freq == carrier_freq,
            s.modulator_freq == modulator_freq,
            s.modulation_index == modulation_index,
            s.wf(),
    {
        FmSynth { carrier_freq, modulator_freq, modulation_index }
    }

    /// Carrier phase at sample `n`, in fixed-point turns, reduced to one turn:
    /// `(carrier_freq * n / rate) mod FX_ONE`, where `n / rate` is the elapsed
    /// time in seconds.
    pub open spec fn spec_carrier_phase(self, n: int, rate: int) -> int {
        (self.carrier_freq * n / rate) % (FX_ONE as int)
    }

    /// Modulator phase at sample `n`, in fixed-point turns, reduced to one turn.
    pub open spec fn spec_modulator_phase(self, n: int, rate: int) -> int {
        (self.modulator_freq * n / rate) % (FX_ONE as int)
    }

    /// Magnitude of the phase deviation contributed by a modulator amplitude
    /// `m`: `modulation_index * |m| / (2*pi)`, rescaled into turns.
    pub open spec fn spec_phase_deviation(self, m: int) -> int {
        let mag = if m < 0 { -m } else { m };
        self.modulation_index * mag / (FX_ONE as int) * INV_TWO_PI / (FX_ONE as int)
    }

    /// The generated amplitude at sample `n` of `rate` per second: the sine of
    /// the carrier phase shifted by the modulator's scaled output,
    /// `sin(2*pi*f_c*t + index * sin(2*pi*f_m*t))` in fixed point.
    pub open spec fn spec_sample(self, n: int, rate: int) -> int {
        let pc = self.spec_carrier_phase(n, rate);
        let m = spec_sin_turns(self.spec_modulator_phase(n, rate));
        let dev = self.spec_phase_deviation(m);
        let u = if m < 0 {
            (pc - dev) % (FX_ONE as int)
        } else {
            (pc + dev) % (FX_ONE as int)
        };
        spec_sin_turns(u)
    }

    /// One normalized sample, in fixed point: the result is the exact value of
    /// `spec_sample`, and always within the unit range.
    pub fn next_sample(&self, n: u64, sample_rate: u32) -> (s: i64)
        requires
            self.wf(),
            1 <= sample_rate,
            n <= MAX_SAMPLE_INDEX,
        ensures
            s == self.spec_sample(n as int, sample_rate as int),
            -FX_ONE <= s <= FX_ONE,
    {
        let one: u64 = FX_ONE as u64;
        let rate: u64 = sample_rate as u64;
        proof {
            assert((self.carrier_freq as int) * (n as int) <= FREQ_MAX * (MAX_SAMPLE_INDEX as int))
                by (nonlinear_arith)
                requires
                    0 <= self.carrier_freq <= FREQ_MAX,
                    0 <= n <= MAX_SAMPLE_INDEX,
            ;
            assert((self.modulator_freq as int) * (n as int) <= FREQ_MAX * (MAX_SAMPLE_INDEX as int))
                by (nonlinear_arith)
                requires
                    0 <= self.modulator_freq <= FREQ_MAX,
                    0 <= n <= MAX_SAMPLE_INDEX,
            ;
            assert((self.carrier_freq as int) * (n as int) >= 0) by (nonlinear_arith)
                requires
                    self.carrier_freq >= 0,
                    n >= 0,
            ;
            assert((self.modulator_freq as int) * (n as int) >= 0) by (nonlinear_arith)
                requires
                    self.modulator_freq >= 0,
                    n >= 0,
            ;
        }
        let pc: u64 = (self.carrier_freq as u64) * n / rate % one;
        let pm: u64 = (self.modulator_freq as u64) * n / rate % one;
        proof {
            lemma_mod_bound(self.carrier_freq * n / (rate as int), FX_ONE as int);
            lemma_mod_bound(self.modulator_freq * n / (rate as int), FX_ONE as int);
        }
        let m: i64 = sin_turns(pm);
        let mag: u64 = if m < 0 {
            (-m) as u64
        } else {
            m as u64
        };
        proof {
            assert((self.modulation_index as int) * (mag as int) <= INDEX_MAX * (FX_ONE as int))
                by (nonlinear_arith)
                requires
                    0 <= self.modulation_index <= INDEX_MAX,
                    0 <= mag <= FX_ONE,
            ;
            assert((self.modulation_index as int) * (mag as int) >= 0) by (nonlinear_arith)
                requires
                    self.modulation_index >= 0,
                    mag >= 0,
            ;
            lemma_div_is_ordered(
                (self.modulation_index as int) * (mag as int),
                INDEX_MAX * (FX_ONE as int),
                FX_ONE as int,
            );
            lemma_div_by_multiple(INDEX_MAX as int, FX_ONE as int);
        }
        let scaled: u64 = (self.modulation_index as u64) * mag / one;
        proof {
            assert((scaled as int) * (INV_TWO_PI as int) <= INDEX_MAX * (INV_TWO_PI as int))
                by (nonlinear_arith)
                requires
                    0 <= scaled <= INDEX_MAX,
            ;
            lemma_div_is_ordered(
                (scaled as int) * (INV_TWO_PI as int),
                INDEX_MAX * (INV_TWO_PI as int),
                FX_ONE as int,
            );
        }
        let dev: u64 = scaled * (INV_TWO_PI as u64) / one;
        let u: u64 = if m < 0 {
            let d: u64 = dev % one;
            proof {
                lemma_mod_bound(dev as int, FX_ONE as int);
                lemma_small_mod(pc as nat, FX_ONE as nat);
                lemma_sub_mod_noop(pc as int, dev as int, FX_ONE as int);
                lemma_mod_multiples_vanish(1, pc - d, FX_ONE as int);
                assert((pc + one - d) % (FX_ONE as int) == (pc - dev) % (FX_ONE as int));
            }
            (pc + one - d) % one
        } else {
            (pc + dev) % one
        };
        proof {
            lemma_mod_bound(pc + one - (dev as int) % (FX_ONE as int), FX_ONE as int);
            lemma_mod_bound((pc + dev) as int, FX_ONE as int);
        }
        sin_turns(u)
    }
}

/// With a zero modulation index the output is exactly the carrier sine:
/// the modulator contributes no phase deviation at all.
pub proof fn lemma_zero_index_pure_carrier(s: FmSynth, n: int, rate: int)
    requires
        s.wf(),
        s.modulation_index == 0,
        0 <= n,
        1 <= rate,
    ensures
        s.spec_sample(n, rate) == spec_sin_turns(s.spec_carrier_phase(n, rate)),
{
    let pc = s.spec_carrier_phase(n, rate);
    let m = spec_sin_turns(s.spec_modulator_phase(n, rate));
    let mag = if m < 0 { -m } else { m };
    assert(0 * mag == 0) by (nonlinear_arith);
    lemma_div_of0(FX_ONE as int);
    assert(s.spec_phase_deviation(m) == 0);
    lemma_mod_bound(s.carrier_freq * n / rate, FX_ONE as int);
    lemma_small_mod(pc as nat, FX_ONE as nat);
    assert((pc - 0) % (FX_ONE as int) == pc);
    assert((pc + 0) % (FX_ONE as int) == pc);
}

/// With both frequencies zero every sample is zero: both oscillators stand
/// still at phase zero, and the sine of zero is zero.
pub proof fn lemma_zero_frequencies_silent(s: FmSynth, n: int, rate: int)
    requires
        s.wf(),
        s.carrier_freq == 0,
        s.modulator_freq == 0,
        0 <= n,
        1 <= rate,
    ensures
        s.spec_sample(n, rate) == 0,
{
    assert(0 * n == 0) by (nonlinear_arith);
    lemma_div_of0(rate);
    lemma_small_mod(0nat, FX_ONE as nat);
    assert(s.spec_carrier_phase(n, rate) == 0);
    assert(s.spec_modulator_phase(n, rate) == 0);
    lemma_sin_turns_zero();
    let m = spec_sin_turns(0);
    assert(m == 0);
    assert(s.modulation_index * 0 == 0) by (nonlinear_arith);
    lemma_div_of0(FX_ONE as int);
    assert(s.spec_phase_deviation(0) == 0);
    assert((0int + 0int) % (FX_ONE as int) == 0);
}

/// The first sample is always zero, whatever the parameters: at `n == 0`
/// every phase is zero, and the sine of zero is zero.
pub proof fn lemma_first_sample_zero(s: FmSynth, rate: int)
    requires
        s.wf(),
        1 <= rate,
    ensures
        s.spec_sample(0, rate) == 0,
{
    assert(s.carrier_freq * 0 == 0) by (nonlinear_arith);
    assert(s.modulator_freq * 0 == 0) by (nonlinear_arith);
    lemma_div_of0(rate);
    lemma_small_mod(0nat, FX_ONE as nat);
    assert(s.spec_carrier_phase(0, rate) == 0);
    assert(s.spec_modulator_phase(0, rate) == 0);
    lemma_sin_turns_zero();
    assert(s.modulation_index * 0 == 0) by (nonlinear_arith);
    lemma_div_of0(FX_ONE as int);
    assert(s.spec_phase_deviation(0) == 0);
    assert((0int + 0int) % (FX_ONE as int) == 0);
}

/// The sine of phase zero is exactly zero.
pub proof fn lemma_sin_turns_zero()
    ensures
        spec_sin_turns(0) == 0,
{
    assert(0 * (FX_HALF - 0) == 0) by (nonlinear_arith);
    lemma_div_of0(FX_ONE as int);
    assert(64 * 0 * FX_ONE == 0) by (nonlinear_arith);
    lemma_div_of0(5 * FX_ONE - 16 * 0);
}

/// Range invariant: the generated amplitude lies in the unit range
/// `[-FX_ONE, FX_ONE]` for every choice of parameters, sample ordinal and
/// rate — the output is the sine of a reduced phase, and the sine never
/// leaves the unit range.
pub proof fn lemma_sample_in_unit_range(s: FmSynth, n: int, rate: int)
    ensures
        -FX_ONE <= s.spec_sample(n, rate) <= FX_ONE,
{
    let pc = s.spec_carrier_phase(n, rate);
    let m = spec_sin_turns(s.spec_modulator_phase(n, rate));
    let dev = s.spec_phase_deviation(m);
    if m < 0 {
        lemma_mod_bound(pc - dev, FX_ONE as int);
        lemma_sin_turns_range((pc - dev) % (FX_ONE as int));
    } else {
        lemma_mod_bound(pc + dev, FX_ONE as int);
        lemma_sin_turns_range((pc + dev) % (FX_ONE as int));
    }
}

/// The sine stays within the unit range on every reduced phase.
pub proof fn lemma_sin_turns_range(u: int)
    requires
        0 <= u < FX_ONE,
    ensures
        -FX_ONE <= spec_sin_turns(u) <= FX_ONE,
{
    let v = if u < FX_HALF { u } else { u - FX_HALF };
    lemma_arc_product_bound(v);
    lemma_div_is_ordered(0, v * (FX_HALF - v), FX_ONE as int);
    lemma_div_of0(FX_ONE as int);
    lemma_div_is_ordered(v * (FX_HALF - v), 0x10_0000_0000, FX_ONE as int);
    lemma_div_by_multiple(0x1_0000, FX_ONE as int);
    lemma_arc_value_bound(v * (FX_HALF - v) / (FX_ONE as int));
    assert(0 <= spec_sin_arc(v) <= FX_ONE);
}

} // verus!
