//! Qwen3-TTS: configuration, weights, talker, code predictor and codec.

pub mod codec;
pub mod codec_encoder;
pub mod config;
pub mod decoding;
pub mod frontend;
pub mod inspect;
pub mod layer;
pub mod listening;
pub mod precision;
pub mod predictor;
pub mod rebuilding;
pub mod refinement;
pub mod sampling;
pub mod speaker_encoder;
pub mod stack;
