//! VibeVoice: streaming speech with a diffusion head.

pub mod backbone;
pub mod config;
pub mod decoder;
pub mod diffusion;
pub mod generation;
pub mod guiding;
pub mod inspect;
pub mod rendering;
pub mod scheduler;
pub mod voice;
pub mod waveform;
