//! Model configuration and its consistency rules.
use vstd::prelude::*;
use vstd::string::*;
use crate::text::{decimal, same, to_decimal};

verus! {

/// A check passes exactly when there is no fault, and otherwise reports it.
pub open spec fn reports(outcome: Result<(), String>, fault: Option<Seq<char>>) -> bool {
    match outcome {
        Ok(_) => fault is None,
        Err(message) => fault == Some(message@),
    }
}

/// The flavours of a released model.
#[derive(Debug, Clone, Copy, PartialEq, Eq, Structural)]
pub enum ModelType {
    Base,
    CustomVoice,
    VoiceDesign,
}

/// Geometry of the reference speaker encoder.
#[derive(Debug, Clone)]
pub struct SpeakerEncoderConfig {
    pub enc_dim: usize,
    pub sample_rate: u32,
}

/// Geometry of the code predictor. `rope_theta` and `rms_norm_eps` are
/// double-precision numbers, by their bits.
#[derive(Debug, Clone, Copy, PartialEq, Eq, Structural)]
pub struct CodePredictorConfig {
    pub hidden_size: usize,
    pub intermediate_size: usize,
    pub num_hidden_layers: usize,
    pub num_attention_heads: usize,
    pub num_key_value_heads: usize,
    pub head_dim: usize,
    pub vocab_size: usize,
    pub num_code_groups: usize,
    pub max_position_embeddings: usize,
    pub rope_theta: u64,
    pub rms_norm_eps: u64,
}

/// Geometry of the talker. `rope_theta` and `rms_norm_eps` are
/// double-precision numbers, by their bits.
#[derive(Debug, Clone)]
pub struct TalkerConfig {
    pub hidden_size: usize,
    pub intermediate_size: usize,
    pub num_hidden_layers: usize,
    pub num_attention_heads: usize,
    pub num_key_value_heads: usize,
    pub head_dim: usize,
    pub vocab_size: usize,
    pub text_vocab_size: usize,
    pub text_hidden_size: usize,
    pub num_code_groups: usize,
    pub max_position_embeddings: usize,
    pub rope_theta: u64,
    pub rms_norm_eps: u64,
    pub code_predictor_config: CodePredictorConfig,
    pub codec_language_id: Vec<(String, u32)>,
}

/// The whole model configuration.
#[derive(Debug, Clone)]
pub struct Qwen3TtsConfig {
    pub model_type: String,
    pub tokenizer_type: String,
    pub tts_model_size: String,
    pub tts_model_type: ModelType,
    pub talker_config: TalkerConfig,
    pub speaker_encoder_config: Option<SpeakerEncoderConfig>,
}

impl CodePredictorConfig {
    /// What is wrong with the geometry, if anything.
    pub open spec fn fault(self) -> Option<Seq<char>> {
        if self.num_key_value_heads > self.num_attention_heads {
            Some("code predictor KV heads exceed query heads"@)
        } else if self.vocab_size == 0 || self.num_hidden_layers == 0 {
            Some("code predictor must have layers and a vocabulary"@)
        } else {
            None
        }
    }

    /// Checks the geometry.
    pub fn validate(&self) -> (outcome: Result<(), String>)
        ensures
            reports(outcome, self.fault()),
    {
        if self.num_key_value_heads > self.num_attention_heads {
            return Err("code predictor KV heads exceed query heads".to_owned());
        }
        if self.vocab_size == 0 || self.num_hidden_layers == 0 {
            return Err("code predictor must have layers and a vocabulary".to_owned());
        }
        Ok(())
    }
}

impl TalkerConfig {
    /// What is wrong with the geometry, if anything.
    pub open spec fn fault(self) -> Option<Seq<char>> {
        if self.num_attention_heads * self.head_dim != self.hidden_size {
            Some(
                "talker query geometry mismatch: "@ + decimal(self.num_attention_heads as nat)
                    + " heads * "@ + decimal(self.head_dim as nat) + " != hidden "@ + decimal(
                    self.hidden_size as nat,
                ),
            )
        } else if self.num_key_value_heads > self.num_attention_heads {
            Some("talker KV heads exceed query heads"@)
        } else if self.code_predictor_config.num_code_groups != self.num_code_groups {
            Some("talker and code predictor disagree on code groups"@)
        } else {
            self.code_predictor_config.fault()
        }
    }

    /// Checks the geometry.
    pub fn validate(&self) -> (outcome: Result<(), String>)
        requires
            self.num_attention_heads * self.head_dim <= usize::MAX,
        ensures
            reports(outcome, self.fault()),
    {
        if self.num_attention_heads * self.head_dim != self.hidden_size {
            return Err(
                "talker query geometry mismatch: ".to_owned().concat(
                    &to_decimal(self.num_attention_heads as u64),
                ).concat(" heads * ").concat(&to_decimal(self.head_dim as u64)).concat(
                    " != hidden ",
                ).concat(&to_decimal(self.hidden_size as u64)),
            );
        }
        if self.num_key_value_heads > self.num_attention_heads {
            return Err("talker KV heads exceed query heads".to_owned());
        }
        if self.code_predictor_config.num_code_groups != self.num_code_groups {
            return Err("talker and code predictor disagree on code groups".to_owned());
        }
        self.code_predictor_config.validate()
    }

    /// Width of the query projection.
    pub open spec fn q_dim(self) -> int {
        self.num_attention_heads * self.head_dim
    }

    /// Width of the key and value projections.
    pub open spec fn kv_dim(self) -> int {
        self.num_key_value_heads * self.head_dim
    }
}

/// Heads are only multiplied where the kind of model and the number of code
/// groups are right, and then the product fits.
pub open spec fn heads_countable(c: Qwen3TtsConfig) -> bool {
    c.model_type@ == "qwen3_tts"@ && c.talker_config.num_code_groups >= 2
        ==> c.talker_config.num_attention_heads * c.talker_config.head_dim <= usize::MAX
}

impl Qwen3TtsConfig {
    /// What is wrong with the configuration, if anything.
    pub open spec fn fault(self) -> Option<Seq<char>> {
        if self.model_type@ != "qwen3_tts"@ {
            Some("expected model_type qwen3_tts, got "@ + self.model_type@)
        } else if self.talker_config.num_code_groups < 2 {
            Some("num_code_groups must be at least 2"@)
        } else {
            self.talker_config.fault()
        }
    }

    /// Checks the configuration.
    pub fn validate(&self) -> (outcome: Result<(), String>)
        requires
            heads_countable(*self),
        ensures
            reports(outcome, self.fault()),
    {
        if !same(self.model_type.as_str(), "qwen3_tts") {
            return Err(
                "expected model_type qwen3_tts, got ".to_owned().concat(self.model_type.as_str()),
            );
        }
        if self.talker_config.num_code_groups < 2 {
            return Err("num_code_groups must be at least 2".to_owned());
        }
        self.talker_config.validate()
    }
}

} // verus!
