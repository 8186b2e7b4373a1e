//! Chatterbox: text tokens, the T3 decoder, and the S3 speech synthesiser.
use vstd::prelude::*;

pub mod encoding;
pub mod flow;
pub mod frontend;
pub mod hift;
pub mod inspect;
pub mod loaded;
pub mod s3gen;
pub mod speaking;
pub mod t3;
pub mod tokenizer;
pub mod vocoding;

verus! {

pub const TEXT_VOCAB_SIZE: usize = 2_454;

pub const SPEECH_VOCAB_SIZE: usize = 8_194;

pub const HIDDEN_SIZE: usize = 1_024;

pub const INTERMEDIATE_SIZE: usize = 4_096;

pub const LAYERS: usize = 30;

pub const ATTENTION_HEADS: usize = 16;

pub const HEAD_DIM: usize = 64;

pub const MAX_TEXT_TOKENS: usize = 2_048;

pub const MAX_SPEECH_TOKENS: usize = 4_096;

pub const SPEECH_CONDITION_TOKENS: usize = 150;

pub const START_TEXT_TOKEN: usize = 255;

pub const STOP_TEXT_TOKEN: usize = 0;

pub const START_SPEECH_TOKEN: usize = 6_561;

pub const STOP_SPEECH_TOKEN: usize = 6_562;

/// 500 000 in single precision, the rotary base of T3.
pub const THETA_500000: u32 = 0x48f4_2400;

} // verus!
