//! Kokoro: phonemes and a voice to a waveform.

pub mod adain;
pub mod albert;
pub mod checkpoint;
pub mod config;
pub mod decoder;
pub mod f0;
pub mod generator;
pub mod generator_res;
pub mod lstm;
pub mod prosody;
pub mod recurrence;
pub mod sources;
pub mod text;
pub mod upsample;
