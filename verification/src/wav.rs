//! 16-bit PCM quantization and the WAV container: a byte-exact header
//! specification, a stateful encoder, and a decoder proved to invert it.

use vstd::prelude::*;
use vstd::arithmetic::div_mod::{
    lemma_div_is_ordered, lemma_fundamental_div_mod_converse, lemma_div_by_multiple,
    lemma_fundamental_div_mod, lemma_mod_multiples_basic,
};
use crate::synth::{FX_ONE, FX_HALF};

verus! {

/// Most samples a single encoder will accept: keeps every chunk size of the
/// container within 32 bits.
pub const MAX_SAMPLES: u64 = 0x3FFF_FFFF;

/// Clamp a fixed-point amplitude to the unit range `[-FX_ONE, FX_ONE]`.
pub open spec fn spec_clamp(s: int) -> int {
    if s < -FX_ONE {
        -FX_ONE
    } else if s > FX_ONE {
        FX_ONE as int
    } else {
        s
    }
}

/// Quantize a fixed-point amplitude to a 16-bit PCM value: clamp to the unit
/// range, scale by 32767, and round to the nearest integer, ties away from
/// zero. Full scale maps to 32767 and -32767; no value can overflow 16 bits.
pub open spec fn spec_quantize(s: int) -> int {
    let c = spec_clamp(s);
    if c >= 0 {
        (c * 32767 + FX_HALF) / (FX_ONE as int)
    } else {
        -((-c * 32767 + FX_HALF) / (FX_ONE as int))
    }
}

proof fn lemma_quantize_scale_bound(c: int)
    requires
        0 <= c <= FX_ONE,
    ensures
        0 <= (c * 32767 + FX_HALF) / (FX_ONE as int) <= 32767,
{
    assert(0 <= c * 32767 <= (FX_ONE as int) * 32767) by (nonlinear_arith)
        requires
            0 <= c <= FX_ONE,
    ;
    lemma_div_is_ordered(0, c * 32767 + FX_HALF, FX_ONE as int);
    vstd::arithmetic::div_mod::lemma_div_of0(FX_ONE as int);
    lemma_div_is_ordered(c * 32767 + FX_HALF, (FX_ONE as int) * 32767 + FX_HALF, FX_ONE as int);
    lemma_fundamental_div_mod_converse(
        (FX_ONE as int) * 32767 + FX_HALF,
        FX_ONE as int,
        32767,
        FX_HALF as int,
    );
}

/// Quantize one sample. The result is the exact value of `spec_quantize`,
/// and always within `[-32767, 32767]`.
pub fn quantize(s: i64) -> (q: i16)
    ensures
        q == spec_quantize(s as int),
        -32767 <= q <= 32767,
{
    let c: i64 = if s < -FX_ONE {
        -FX_ONE
    } else if s > FX_ONE {
        FX_ONE
    } else {
        s
    };
    if c >= 0 {
        let cu: u64 = c as u64;
        proof {
            lemma_quantize_scale_bound(cu as int);
        }
        let qu: u64 = (cu * 32767 + FX_HALF as u64) / (FX_ONE as u64);
        qu as i16
    } else {
        let cu: u64 = (-c) as u64;
        proof {
            lemma_quantize_scale_bound(cu as int);
        }
        let qu: u64 = (cu * 32767 + FX_HALF as u64) / (FX_ONE as u64);
        -(qu as i16)
    }
}

/// Quantization boundary: exact full scale maps to the extreme values 32767
/// and -32767 (never past 16-bit range), zero maps to zero, and anything
/// beyond full scale is clamped to the same extremes.
pub proof fn lemma_quantize_full_scale()
    ensures
        spec_quantize(FX_ONE as int) == 32767,
        spec_quantize(-(FX_ONE as int)) == -32767,
        spec_quantize(0) == 0,
        forall|s: int| s >= FX_ONE ==> spec_quantize(s) == 32767,
        forall|s: int| s <= -FX_ONE ==> spec_quantize(s) == -32767,
{
    lemma_fundamental_div_mod_converse(
        (FX_ONE as int) * 32767 + FX_HALF,
        FX_ONE as int,
        32767,
        FX_HALF as int,
    );
    lemma_fundamental_div_mod_converse(FX_HALF as int, FX_ONE as int, 0, FX_HALF as int);
}

/// The two bytes of a 16-bit value, little-endian.
pub open spec fn le16(v: u16) -> Seq<u8> {
    seq![(v & 0xFF) as u8, ((v >> 8) & 0xFF) as u8]
}

/// The four bytes of a 32-bit value, little-endian.
pub open spec fn le32(v: u32) -> Seq<u8> {
    seq![
        (v & 0xFF) as u8,
        ((v >> 8) & 0xFF) as u8,
        ((v >> 16) & 0xFF) as u8,
        ((v >> 24) & 0xFF) as u8,
    ]
}

/// A 16-bit PCM sample on the wire: its two's-complement bytes, little-endian.
pub open spec fn spec_sample_bytes(s: i16) -> Seq<u8> {
    le16(s as u16)
}

/// The data section for a sequence of samples: each sample's two bytes, in
/// sequence order.
pub open spec fn spec_pcm_bytes(samples: Seq<i16>) -> Seq<u8>
    decreases samples.len(),
{
    if samples.len() == 0 {
        Seq::empty()
    } else {
        spec_pcm_bytes(samples.drop_last()) + spec_sample_bytes(samples.last())
    }
}

pub proof fn lemma_pcm_bytes_len(samples: Seq<i16>)
    ensures
        spec_pcm_bytes(samples).len() == 2 * samples.len(),
    decreases samples.len(),
{
    if samples.len() > 0 {
        lemma_pcm_bytes_len(samples.drop_last());
    }
}

pub proof fn lemma_pcm_bytes_index(samples: Seq<i16>, k: int)
    requires
        0 <= k < samples.len(),
    ensures
        spec_pcm_bytes(samples)[2 * k] == spec_sample_bytes(samples[k])[0],
        spec_pcm_bytes(samples)[2 * k + 1] == spec_sample_bytes(samples[k])[1],
    decreases samples.len(),
{
    lemma_pcm_bytes_len(samples);
    lemma_pcm_bytes_len(samples.drop_last());
    if k < samples.len() - 1 {
        lemma_pcm_bytes_index(samples.drop_last(), k);
    }
}

/// The format half of the header: channel count, sample rate, and the 16-bit
/// integer PCM encoding. `valid` bounds every derived header field to its
/// wire width.
#[derive(Clone, Copy, Debug, PartialEq, Eq, Structural)]
pub struct WavSpec {
    pub channels: u16,
    pub sample_rate: u32,
    pub bits_per_sample: u16,
}

impl WavSpec {
    /// Internally consistent: at least one channel, a positive sample rate,
    /// the one supported bit depth, and a byte rate and block alignment that
    /// fit their header fields.
    pub open spec fn valid(self) -> bool {
        &&& 1 <= self.channels <= 0x7FFF
        &&& 1 <= self.sample_rate
        &&& self.bits_per_sample == 16
        &&& self.sample_rate * self.channels * 2 <= 0xFFFF_FFFF
    }

    pub fn is_valid(&self) -> (b: bool)
        ensures
            b == self.valid(),
    {
        proof {
            assert(0 <= (self.sample_rate as int) * (self.channels as int) <= 0xFFFF_FFFFint
                * 0xFFFFint) by (nonlinear_arith)
                requires
                    0 <= self.sample_rate <= 0xFFFF_FFFF,
                    0 <= self.channels <= 0xFFFF,
            ;
        }
        1 <= self.channels && self.channels <= 0x7FFF && 1 <= self.sample_rate
            && self.bits_per_sample == 16 && (self.sample_rate as u64) * (self.channels as u64) * 2
            <= 0xFFFF_FFFF
    }
}

/// The RIFF chunk size field: the whole file minus the eight bytes of the
/// RIFF tag and the field itself.
pub open spec fn spec_riff_size(data_len: u32) -> u32 {
    (36 + data_len) as u32
}

/// The byte rate field: bytes of sample data per second of audio.
pub open spec fn spec_byte_rate(f: WavSpec) -> u32 {
    (f.sample_rate * f.channels * 2) as u32
}

/// The 44-byte header that precedes `data_len` bytes of PCM data: the RIFF
/// tag and size, the WAVE tag, a 16-byte format chunk (integer PCM, channel
/// count, sample rate, byte rate, block alignment, 16 bits per sample), and
/// the data tag and length.
pub open spec fn spec_header(f: WavSpec, data_len: u32) -> Seq<u8> {
    seq![0x52u8, 0x49u8, 0x46u8, 0x46u8] + le32(spec_riff_size(data_len)) + seq![
        0x57u8,
        0x41u8,
        0x56u8,
        0x45u8,
    ] + seq![0x66u8, 0x6Du8, 0x74u8, 0x20u8] + le32(16u32) + le16(1u16) + le16(f.channels) + le32(
        f.sample_rate,
    ) + le32(spec_byte_rate(f)) + le16((f.channels * 2) as u16) + le16(16u16) + seq![
        0x64u8,
        0x61u8,
        0x74u8,
        0x61u8,
    ] + le32(data_len)
}

/// A complete file: the header for the data section's length, then the data.
pub open spec fn spec_wav_file(f: WavSpec, data: Seq<u8>) -> Seq<u8> {
    spec_header(f, data.len() as u32) + data
}

/// What can go wrong inside the encoder itself. Failures of the destination
/// (creation, writing) belong to whoever owns the destination; the encoder
/// only builds bytes.
#[derive(Clone, Copy, Debug, PartialEq, Eq, Structural)]
pub enum WavError {
    /// The format is not internally consistent or not supported.
    Unsupported,
    /// A call out of the valid state sequence: writing after finalize, or
    /// finalizing twice.
    Usage,
}

proof fn lemma_i16_as_u16(s: i16)
    ensures
        s >= 0 ==> s as u16 == s,
        s < 0 ==> s as u16 == s + 0x1_0000,
{
    assert(s >= 0 ==> s as u16 == s) by (bit_vector);
    assert(s < 0 ==> s as u16 == s + 0x1_0000) by (bit_vector);
}

proof fn lemma_le16_recompose(v: u16)
    ensures
        (v & 0xFF) + 0x100 * ((v >> 8) & 0xFF) == v,
{
    assert((v & 0xFF) + 0x100 * ((v >> 8) & 0xFF) == v) by (bit_vector);
}

proof fn lemma_le32_recompose(v: u32)
    ensures
        (v & 0xFF) + 0x100 * ((v >> 8) & 0xFF) + 0x1_0000 * ((v >> 16) & 0xFF) + 0x100_0000 * ((v
            >> 24) & 0xFF) == v,
{
    assert((v & 0xFF) + 0x100 * ((v >> 8) & 0xFF) + 0x1_0000 * ((v >> 16) & 0xFF) + 0x100_0000 * ((
    v >> 24) & 0xFF) == v) by (bit_vector);
}

fn push_le16(v: &mut Vec<u8>, x: u16)
    ensures
        final(v)@ == old(v)@ + le16(x),
{
    proof {
        assert(x & 0xFF < 256 && (x >> 8) & 0xFF < 256) by (bit_vector);
    }
    v.push((x & 0xFF) as u8);
    v.push(((x >> 8) & 0xFF) as u8);
    proof {
        assert(v@ =~= old(v)@ + le16(x));
    }
}

fn push_le32(v: &mut Vec<u8>, x: u32)
    ensures
        final(v)@ == old(v)@ + le32(x),
{
    proof {
        assert(x & 0xFF < 256 && (x >> 8) & 0xFF < 256 && (x >> 16) & 0xFF < 256 && (x >> 24)
            & 0xFF < 256) by (bit_vector);
    }
    v.push((x & 0xFF) as u8);
    v.push(((x >> 8) & 0xFF) as u8);
    v.push(((x >> 16) & 0xFF) as u8);
    v.push(((x >> 24) & 0xFF) as u8);
    proof {
        assert(v@ =~= old(v)@ + le32(x));
    }
}

fn build_header(f: WavSpec, data_len: u32) -> (v: Vec<u8>)
    requires
        f.valid(),
        data_len <= 0x7FFF_FFFE,
    ensures
        v@ == spec_header(f, data_len),
{
    let mut v: Vec<u8> = Vec::new();
    v.push(0x52);
    v.push(0x49);
    v.push(0x46);
    v.push(0x46);
    push_le32(&mut v, 36 + data_len);
    v.push(0x57);
    v.push(0x41);
    v.push(0x56);
    v.push(0x45);
    v.push(0x66);
    v.push(0x6D);
    v.push(0x74);
    v.push(0x20);
    push_le32(&mut v, 16);
    push_le16(&mut v, 1);
    push_le16(&mut v, f.channels);
    push_le32(&mut v, f.sample_rate);
    let byte_rate: u32 = f.sample_rate * (f.channels as u32) * 2;
    push_le32(&mut v, byte_rate);
    let block_align: u16 = f.channels * 2;
    push_le16(&mut v, block_align);
    push_le16(&mut v, 16);
    v.push(0x64);
    v.push(0x61);
    v.push(0x74);
    v.push(0x61);
    push_le32(&mut v, data_len);
    proof {
        assert(v@ =~= spec_header(f, data_len));
    }
    v
}

/// The encoder: created for a valid format, fed one quantized sample at a
/// time, and finalized once into the complete file bytes. After finalize,
/// both writing and a second finalize fail with a usage error; the header it
/// emits always declares exactly the data that was written.
#[derive(Debug)]
pub struct WavEncoder {
    pub format: WavSpec,
    pub data: Vec<u8>,
    pub samples_written: u64,
    pub finalized: bool,
}

impl WavEncoder {
    /// The encoder's invariant: a valid format, and a data section that holds
    /// exactly two bytes for every sample written so far.
    pub open spec fn wf(self) -> bool {
        &&& self.format.valid()
        &&& self.data@.len() == 2 * self.samples_written
        &&& self.samples_written <= MAX_SAMPLES
    }

    /// Create an encoder for `format`: succeeds exactly when the format is
    /// internally consistent, and starts with no samples written.
    pub fn new(format: WavSpec) -> (r: Result<WavEncoder, WavError>)
        ensures
            r is Ok <==> format.valid(),
            r matches Ok(e) ==> e.format == format && e.data@ == Seq::<u8>::empty()
                && e.samples_written == 0 && !e.finalized && e.wf(),
            r is Err ==> r == Err::<WavEncoder, WavError>(WavError::Unsupported),
    {
        if format.is_valid() {
            let e = WavEncoder { format, data: Vec::new(), samples_written: 0, finalized: false };
            proof {
                assert(e.data@ =~= Seq::<u8>::empty());
            }
            Ok(e)
        } else {
            Err(WavError::Unsupported)
        }
    }

    /// Append one sample. Fails exactly when the encoder is already
    /// finalized; otherwise the sample's two little-endian bytes extend the
    /// data section and the count grows by one.
    pub fn write_sample(&mut self, s: i16) -> (r: Result<(), WavError>)
        requires
            old(self).wf(),
            old(self).samples_written < MAX_SAMPLES,
        ensures
            final(self).wf(),
            r is Ok <==> !old(self).finalized,
            old(self).finalized ==> r == Err::<(), WavError>(WavError::Usage) && *final(self)
                == *old(self),
            !old(self).finalized ==> final(self).data@ == old(self).data@ + spec_sample_bytes(s)
                && final(self).samples_written == old(self).samples_written + 1 && final(self).format == old(self).format && !final(self).finalized,
    {
        if self.finalized {
            return Err(WavError::Usage);
        }
        let u: u16 = if s >= 0 {
            s as u16
        } else {
            ((s as i32) + 0x1_0000) as u16
        };
        proof {
            lemma_i16_as_u16(s);
            assert(u == s as u16);
            assert(u & 0xFF < 256 && (u >> 8) & 0xFF < 256) by (bit_vector);
        }
        self.data.push((u & 0xFF) as u8);
        self.data.push(((u >> 8) & 0xFF) as u8);
        self.samples_written = self.samples_written + 1;
        proof {
            assert(self.data@ =~= old(self).data@ + spec_sample_bytes(s));
        }
        Ok(())
    }

    /// Finalize: emit the complete file, header first, exactly once. Fails
    /// exactly when called a second time. The emitted header declares the
    /// data section's true length — never an estimate — so the file never
    /// claims more samples than were written.
    pub fn finalize(&mut self) -> (r: Result<Vec<u8>, WavError>)
        requires
            old(self).wf(),
        ensures
            final(self).wf(),
            r is Ok <==> !old(self).finalized,
            old(self).finalized ==> r == Err::<Vec<u8>, WavError>(WavError::Usage) && *final(self)
                == *old(self),
            r matches Ok(bytes) ==> bytes@ == spec_wav_file(old(self).format, old(self).data@)
                && bytes@.len() == 44 + old(self).data@.len() && final(self).finalized && final(self).data@ == old(self).data@
                && final(self).samples_written == old(self).samples_written && final(self).format == old(self).format,
    {
        if self.finalized {
            return Err(WavError::Usage);
        }
        self.finalized = true;
        let data_len32: u32 = (2 * self.samples_written) as u32;
        let mut out = build_header(self.format, data_len32);
        let mut i: usize = 0;
        while i < self.data.len()
            invariant
                i <= self.data@.len(),
                data_len32 == self.data@.len(),
                self.format.valid(),
                out@ == spec_header(self.format, data_len32) + self.data@.subrange(0, i as int),
            decreases self.data@.len() - i,
        {
            out.push(self.data[i]);
            proof {
                assert(out@ =~= spec_header(self.format, data_len32) + self.data@.subrange(
                    0,
                    i + 1int,
                ));
            }
            i = i + 1;
        }
        proof {
            assert(self.data@.subrange(0, self.data@.len() as int) =~= self.data@);
            assert(out@ == spec_wav_file(self.format, self.data@));
        }
        Ok(out)
    }
}

/// The little-endian 16-bit value at offset `i`.
pub open spec fn rd16(b: Seq<u8>, i: int) -> int {
    b[i] + 0x100 * b[i + 1]
}

/// The little-endian 32-bit value at offset `i`.
pub open spec fn rd32(b: Seq<u8>, i: int) -> int {
    b[i] + 0x100 * b[i + 1] + 0x1_0000 * b[i + 2] + 0x100_0000 * b[i + 3]
}

/// The sample for a 16-bit wire word: two's complement.
pub open spec fn spec_decode_i16(u: int) -> i16 {
    if u < 0x8000 {
        u as i16
    } else {
        (u - 0x1_0000) as i16
    }
}

/// Whether `b` is a well-formed minimal WAV file: the four tags in place, a
/// 16-byte integer-PCM format chunk whose derived fields agree with one
/// another, and chunk sizes that match the file's true length.
pub open spec fn spec_header_ok(b: Seq<u8>) -> bool {
    &&& b.len() >= 44
    &&& b[0] == 0x52 && b[1] == 0x49 && b[2] == 0x46 && b[3] == 0x46
    &&& rd32(b, 4) == b.len() - 8
    &&& b[8] == 0x57 && b[9] == 0x41 && b[10] == 0x56 && b[11] == 0x45
    &&& b[12] == 0x66 && b[13] == 0x6D && b[14] == 0x74 && b[15] == 0x20
    &&& rd32(b, 16) == 16
    &&& rd16(b, 20) == 1
    &&& 1 <= rd16(b, 22) <= 0x7FFF
    &&& 1 <= rd32(b, 24)
    &&& rd32(b, 28) == rd32(b, 24) * rd16(b, 22) * 2
    &&& rd16(b, 32) == rd16(b, 22) * 2
    &&& rd16(b, 34) == 16
    &&& b[36] == 0x64 && b[37] == 0x61 && b[38] == 0x74 && b[39] == 0x61
    &&& rd32(b, 40) == b.len() - 44
    &&& (b.len() - 44) % 2 == 0
}

/// The format a conformant decoder recovers from a well-formed file.
pub open spec fn spec_parsed_format(b: Seq<u8>) -> WavSpec {
    WavSpec { channels: rd16(b, 22) as u16, sample_rate: rd32(b, 24) as u32, bits_per_sample: 16 }
}

/// The samples a conformant decoder recovers from a well-formed file.
pub open spec fn spec_parsed_samples(b: Seq<u8>) -> Seq<i16> {
    Seq::new(((b.len() - 44) / 2) as nat, |k: int| spec_decode_i16(rd16(b, 44 + 2 * k)))
}

/// What decoding `b` yields: the format and samples when `b` is well-formed,
/// nothing otherwise.
pub open spec fn spec_parse(b: Seq<u8>) -> Option<(WavSpec, Seq<i16>)> {
    if spec_header_ok(b) {
        Some((spec_parsed_format(b), spec_parsed_samples(b)))
    } else {
        None
    }
}

fn rd16e(b: &Vec<u8>, i: usize) -> (v: u32)
    requires
        i + 2 <= b@.len(),
    ensures
        v == rd16(b@, i as int),
        v < 0x1_0000,
{
    let end = b.len();
    proof {
        assert(i + 2 <= end);
    }
    (b[i] as u32) + 0x100 * (b[i + 1] as u32)
}

fn rd32e(b: &Vec<u8>, i: usize) -> (v: u32)
    requires
        i + 4 <= b@.len(),
    ensures
        v == rd32(b@, i as int),
{
    let end = b.len();
    proof {
        assert(i + 4 <= end);
    }
    (b[i] as u32) + 0x100 * (b[i + 1] as u32) + 0x1_0000 * (b[i + 2] as u32) + 0x100_0000 * (b[i
        + 3] as u32)
}

/// Decode a WAV file: recover the format and the samples exactly when the
/// bytes are a well-formed minimal file, as `spec_parse` states.
pub fn parse_wav(b: &Vec<u8>) -> (r: Option<(WavSpec, Vec<i16>)>)
    ensures
        r is Some <==> spec_parse(b@) is Some,
        r matches Some(p) ==> spec_parse(b@) == Some((p.0, p.1@)),
{
    let n = b.len();
    if n < 44 {
        return None;
    }
    if !(b[0] == 0x52 && b[1] == 0x49 && b[2] == 0x46 && b[3] == 0x46) {
        return None;
    }
    if (rd32e(b, 4) as u64) != (n - 8) as u64 {
        return None;
    }
    if !(b[8] == 0x57 && b[9] == 0x41 && b[10] == 0x56 && b[11] == 0x45) {
        return None;
    }
    if !(b[12] == 0x66 && b[13] == 0x6D && b[14] == 0x74 && b[15] == 0x20) {
        return None;
    }
    if rd32e(b, 16) != 16 {
        return None;
    }
    if rd16e(b, 20) != 1 {
        return None;
    }
    let channels = rd16e(b, 22);
    if !(1 <= channels && channels <= 0x7FFF) {
        return None;
    }
    let rate = rd32e(b, 24);
    if rate < 1 {
        return None;
    }
    proof {
        assert(0 <= (rate as int) * (channels as int) <= 0xFFFF_FFFFint * 0x7FFFint)
            by (nonlinear_arith)
            requires
                0 <= rate <= 0xFFFF_FFFF,
                0 <= channels <= 0x7FFF,
        ;
    }
    if (rd32e(b, 28) as u64) != (rate as u64) * (channels as u64) * 2 {
        return None;
    }
    if rd16e(b, 32) != channels * 2 {
        return None;
    }
    if rd16e(b, 34) != 16 {
        return None;
    }
    if !(b[36] == 0x64 && b[37] == 0x61 && b[38] == 0x74 && b[39] == 0x61) {
        return None;
    }
    if (rd32e(b, 40) as u64) != (n - 44) as u64 {
        return None;
    }
    if (n - 44) % 2 != 0 {
        return None;
    }
    let count = (n - 44) / 2;
    proof {
        lemma_fundamental_div_mod((n - 44) as int, 2);
    }
    let mut out: Vec<i16> = Vec::new();
    let mut k: usize = 0;
    while k < count
        invariant
            b@.len() == n,
            44 <= n,
            count == (n - 44) / 2,
            2 * count == n - 44,
            k <= count,
            out@.len() == k,
            forall|j: int| 0 <= j < k ==> out@[j] == spec_decode_i16(rd16(b@, 44 + 2 * j)),
        decreases count - k,
    {
        let u: u32 = rd16e(b, 44 + 2 * k);
        let s: i16 = if u < 0x8000 {
            u as i16
        } else {
            ((u as i32) - 0x1_0000) as i16
        };
        out.push(s);
        k = k + 1;
    }
    let f = WavSpec { channels: channels as u16, sample_rate: rate, bits_per_sample: 16 };
    proof {
        assert(spec_header_ok(b@));
        assert(out@ =~= spec_parsed_samples(b@));
        assert(f == spec_parsed_format(b@));
    }
    Some((f, out))
}

proof fn lemma_rd16_le16(v: u16, b: Seq<u8>, i: int)
    requires
        0 <= i,
        i + 2 <= b.len(),
        b[i] == le16(v)[0],
        b[i + 1] == le16(v)[1],
    ensures
        rd16(b, i) == v,
{
    assert((v & 0xFF) < 0x100 && ((v >> 8) & 0xFF) < 0x100) by (bit_vector);
    lemma_le16_recompose(v);
}

proof fn lemma_rd32_le32(v: u32, b: Seq<u8>, i: int)
    requires
        0 <= i,
        i + 4 <= b.len(),
        b[i] == le32(v)[0],
        b[i + 1] == le32(v)[1],
        b[i + 2] == le32(v)[2],
        b[i + 3] == le32(v)[3],
    ensures
        rd32(b, i) == v,
{
    assert((v & 0xFF) < 0x100 && ((v >> 8) & 0xFF) < 0x100 && ((v >> 16) & 0xFF) < 0x100 && ((v
        >> 24) & 0xFF) < 0x100) by (bit_vector);
    lemma_le32_recompose(v);
}

/// Round trip: a conformant decoder reading an encoded file recovers exactly
/// the format and the sample sequence that were encoded.
pub proof fn lemma_wav_round_trip(f: WavSpec, samples: Seq<i16>)
    requires
        f.valid(),
        samples.len() <= MAX_SAMPLES,
    ensures
        spec_parse(spec_wav_file(f, spec_pcm_bytes(samples))) == Some((f, samples)),
{
    lemma_pcm_bytes_len(samples);
    let data = spec_pcm_bytes(samples);
    let dlen = data.len() as u32;
    let h = spec_header(f, dlen);
    let b = spec_wav_file(f, data);
    assert(h.len() == 44);
    assert(b.len() == 44 + data.len());
    assert(forall|i: int| 0 <= i < 44 ==> b[i] == h[i]);
    assert(spec_riff_size(dlen) == 36 + data.len());
    assert(spec_byte_rate(f) == f.sample_rate * f.channels * 2);
    lemma_rd32_le32(spec_riff_size(dlen), b, 4);
    lemma_rd32_le32(16u32, b, 16);
    lemma_rd16_le16(1u16, b, 20);
    lemma_rd16_le16(f.channels, b, 22);
    lemma_rd32_le32(f.sample_rate, b, 24);
    lemma_rd32_le32(spec_byte_rate(f), b, 28);
    lemma_rd16_le16((f.channels * 2) as u16, b, 32);
    lemma_rd16_le16(16u16, b, 34);
    lemma_rd32_le32(dlen, b, 40);
    lemma_mod_multiples_basic(samples.len() as int, 2);
    assert((b.len() - 44) % 2 == 0);
    assert(spec_header_ok(b));
    assert(spec_parsed_format(b) == f);
    lemma_div_by_multiple(samples.len() as int, 2);
    let ps = spec_parsed_samples(b);
    assert(ps.len() == samples.len());
    assert forall|k: int| 0 <= k < samples.len() implies ps[k] == samples[k] by {
        lemma_pcm_bytes_index(samples, k);
        assert(b[44 + 2 * k] == data[2 * k]);
        assert(b[44 + 2 * k + 1] == data[2 * k + 1]);
        lemma_rd16_le16(samples[k] as u16, b, 44 + 2 * k);
        lemma_i16_as_u16(samples[k]);
    }
    assert(ps =~= samples);
}

} // verus!
