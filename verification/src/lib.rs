//! Verified planning and parsing core of a CUDA speech-synthesis engine.
pub mod arith;
pub mod catalog;
pub mod chatterbox;
pub mod device;
pub mod edit;
pub mod gguf;
pub mod json;
pub mod kernel;
pub mod kokoro;
pub mod layout;
pub mod loading;
pub mod number;
pub mod qwen3_tts;
pub mod resolve;
pub mod text;
pub mod tokenization;
pub mod vibevoice;
pub mod weights;
