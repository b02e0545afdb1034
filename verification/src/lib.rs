//! A small FM-synthesis library: a deterministic two-operator signal
//! generator in fixed-point arithmetic, a 16-bit PCM quantizer, and a
//! byte-exact WAV encoder and decoder, all with verified contracts.

pub mod synth;
pub mod wav;
pub mod pipeline;
