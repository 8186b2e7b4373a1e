//! Model configuration and its consistency rules.
use vstd::prelude::*;
use vstd::string::*;
use crate::qwen3_tts::config::reports;
use crate::text::{debug_shown, same, to_debug};

verus! {

/// Geometry of the acoustic tokenizer. `layernorm_eps` is a double-precision
/// number, by its bits.
#[derive(Debug)]
pub struct AcousticTokenizerConfig {
    pub causal: bool,
    pub channels: usize,
    pub decoder_n_filters: usize,
    pub decoder_ratios: Vec<usize>,
    pub layernorm_eps: u64,
    pub model_type: String,
    pub vae_dim: usize,
}

/// Geometry of the language model. `rms_norm_eps` and `rope_theta` are
/// double-precision numbers, by their bits.
#[derive(Debug)]
pub struct DecoderConfig {
    pub hidden_size: usize,
    pub intermediate_size: usize,
    pub max_position_embeddings: usize,
    pub model_type: String,
    pub num_attention_heads: usize,
    pub num_hidden_layers: usize,
    pub num_key_value_heads: usize,
    pub rms_norm_eps: u64,
    pub rope_theta: u64,
    pub torch_dtype: String,
    pub vocab_size: usize,
}

/// Geometry of the diffusion head. `head_ffn_ratio` and `rms_norm_eps` are
/// double-precision numbers, by their bits.
#[derive(Debug)]
pub struct DiffusionHeadConfig {
    pub ddpm_beta_schedule: String,
    pub ddpm_num_inference_steps: usize,
    pub ddpm_num_steps: usize,
    pub diffusion_type: String,
    pub head_ffn_ratio: u64,
    pub head_layers: usize,
    pub hidden_size: usize,
    pub latent_size: usize,
    pub model_type: String,
    pub prediction_type: String,
    pub rms_norm_eps: u64,
    pub speech_vae_dim: usize,
}

/// The whole model configuration.
#[derive(Debug)]
pub struct VibeVoiceConfig {
    pub acoustic_vae_dim: usize,
    pub acoustic_tokenizer_config: AcousticTokenizerConfig,
    pub architectures: Vec<String>,
    pub decoder_config: DecoderConfig,
    pub diffusion_head_config: DiffusionHeadConfig,
    pub model_type: String,
    pub torch_dtype: String,
    pub tts_backbone_num_hidden_layers: usize,
}

/// Whether one of the names is this one.
pub open spec fn names(list: Seq<String>, name: Seq<char>) -> bool {
    exists|i: int| 0 <= i < list.len() && (#[trigger] list[i])@ == name
}

/// Whether no ratio is zero.
pub open spec fn all_positive(ratios: Seq<usize>) -> bool {
    forall|i: int| 0 <= i < ratios.len() ==> #[trigger] ratios[i] > 0
}

/// What is wrong with the kinds of model named, if anything is.
pub open spec fn kind_fault(c: VibeVoiceConfig) -> Option<Seq<char>> {
    if c.model_type@ != "vibevoice_streaming"@ {
        Some("unsupported VibeVoice model type "@ + debug_shown(c.model_type@))
    } else if !names(c.architectures@, "VibeVoiceStreamingForConditionalGenerationInference"@) {
        Some("checkpoint is not a VibeVoice streaming inference model"@)
    } else if c.decoder_config.model_type@ != "qwen2"@ {
        Some("unsupported VibeVoice decoder "@ + debug_shown(c.decoder_config.model_type@))
    } else if c.acoustic_tokenizer_config.model_type@ != "vibevoice_acoustic_tokenizer"@ {
        Some(
            "unsupported VibeVoice acoustic tokenizer "@ + debug_shown(
                c.acoustic_tokenizer_config.model_type@,
            ),
        )
    } else if c.diffusion_head_config.model_type@ != "vibevoice_diffusion_head"@ {
        Some(
            "unsupported VibeVoice diffusion head "@ + debug_shown(
                c.diffusion_head_config.model_type@,
            ),
        )
    } else if c.torch_dtype@ != "bfloat16"@ || c.decoder_config.torch_dtype@ != "bfloat16"@ {
        Some("VibeVoice-Realtime native path requires BF16 weights"@)
    } else {
        None
    }
}

/// What is wrong with the attention geometry, if anything is.
pub open spec fn attention_fault(c: VibeVoiceConfig) -> Option<Seq<char>> {
    let d = c.decoder_config;
    if d.hidden_size % d.num_attention_heads != 0 {
        Some("VibeVoice hidden size is not divisible by its attention heads"@)
    } else if d.num_attention_heads % d.num_key_value_heads != 0 {
        Some("VibeVoice attention heads are not divisible by KV heads"@)
    } else {
        None
    }
}

/// What is wrong with the remaining geometry, if anything is.
pub open spec fn shape_fault(c: VibeVoiceConfig) -> Option<Seq<char>> {
    let h = c.diffusion_head_config;
    let a = c.acoustic_tokenizer_config;
    if c.tts_backbone_num_hidden_layers >= c.decoder_config.num_hidden_layers {
        Some("VibeVoice TTS backbone must leave at least one text-only layer"@)
    } else if c.acoustic_vae_dim != a.vae_dim || c.acoustic_vae_dim != h.latent_size
        || c.acoustic_vae_dim != h.speech_vae_dim {
        Some("VibeVoice acoustic latent dimensions disagree"@)
    } else if h.hidden_size != c.decoder_config.hidden_size {
        Some("VibeVoice diffusion and decoder hidden sizes disagree"@)
    } else if !a.causal {
        Some("VibeVoice-Realtime requires a causal acoustic decoder"@)
    } else if a.channels != 1 {
        Some("only mono VibeVoice audio is supported"@)
    } else if a.decoder_ratios@.len() == 0 || !all_positive(a.decoder_ratios@) {
        Some("VibeVoice decoder ratios must be non-zero"@)
    } else if h.ddpm_num_inference_steps == 0 || h.ddpm_num_steps < h.ddpm_num_inference_steps {
        Some("invalid VibeVoice diffusion schedule"@)
    } else {
        None
    }
}

/// What is wrong with a configuration, if anything is.
pub open spec fn config_fault(c: VibeVoiceConfig) -> Option<Seq<char>> {
    if kind_fault(c) is Some {
        kind_fault(c)
    } else if attention_fault(c) is Some {
        attention_fault(c)
    } else {
        shape_fault(c)
    }
}

/// Heads are only counted where the kinds of model are right, and then there
/// are some.
pub open spec fn heads_counted(c: VibeVoiceConfig) -> bool {
    let d = c.decoder_config;
    kind_fault(c) is None ==> d.num_attention_heads > 0 && (d.hidden_size % d.num_attention_heads
        == 0 ==> d.num_key_value_heads > 0)
}

/// The product of ratios.
pub open spec fn ratio_product(ratios: Seq<usize>) -> nat
    decreases ratios.len(),
{
    if ratios.len() == 0 {
        1
    } else {
        ratio_product(ratios.drop_last()) * (ratios.last() as nat)
    }
}

/// The product of every run of leading ratios fits.
pub open spec fn multipliable(ratios: Seq<usize>) -> bool {
    forall|k: int| 0 <= k <= ratios.len() ==> ratio_product(#[trigger] ratios.take(k)) <= usize::MAX
}

/// Whether one of the names is this one.
fn any_named(list: &Vec<String>, name: &str) -> (found: bool)
    ensures
        found == names(list@, name@),
{
    for i in 0..list.len()
        invariant
            forall|j: int| 0 <= j < i ==> (#[trigger] list@[j])@ != name@,
    {
        if same(list[i].as_str(), name) {
            return true;
        }
    }
    false
}

/// Whether no ratio is zero.
fn none_zero(ratios: &Vec<usize>) -> (yes: bool)
    ensures
        yes == all_positive(ratios@),
{
    for i in 0..ratios.len()
        invariant
            forall|j: int| 0 <= j < i ==> #[trigger] ratios@[j] > 0,
    {
        if ratios[i] == 0 {
            return false;
        }
    }
    true
}

impl VibeVoiceConfig {
    /// Checks the kinds of model named.
    fn validate_kinds(&self) -> (outcome: Result<(), String>)
        ensures
            reports(outcome, kind_fault(*self)),
    {
        if !same(self.model_type.as_str(), "vibevoice_streaming") {
            return Err(
                "unsupported VibeVoice model type ".to_owned().concat(
                    &to_debug(self.model_type.as_str()),
                ),
            );
        }
        if !any_named(
            &self.architectures,
            "VibeVoiceStreamingForConditionalGenerationInference",
        ) {
            return Err("checkpoint is not a VibeVoice streaming inference model".to_owned());
        }
        if !same(self.decoder_config.model_type.as_str(), "qwen2") {
            return Err(
                "unsupported VibeVoice decoder ".to_owned().concat(
                    &to_debug(self.decoder_config.model_type.as_str()),
                ),
            );
        }
        if !same(
            self.acoustic_tokenizer_config.model_type.as_str(),
            "vibevoice_acoustic_tokenizer",
        ) {
            return Err(
                "unsupported VibeVoice acoustic tokenizer ".to_owned().concat(
                    &to_debug(self.acoustic_tokenizer_config.model_type.as_str()),
                ),
            );
        }
        if !same(self.diffusion_head_config.model_type.as_str(), "vibevoice_diffusion_head") {
            return Err(
                "unsupported VibeVoice diffusion head ".to_owned().concat(
                    &to_debug(self.diffusion_head_config.model_type.as_str()),
                ),
            );
        }
        if !same(self.torch_dtype.as_str(), "bfloat16") || !same(
            self.decoder_config.torch_dtype.as_str(),
            "bfloat16",
        ) {
            return Err("VibeVoice-Realtime native path requires BF16 weights".to_owned());
        }
        Ok(())
    }

    /// Checks the geometry beyond attention.
    fn validate_shapes(&self) -> (outcome: Result<(), String>)
        ensures
            reports(outcome, shape_fault(*self)),
    {
        let h = &self.diffusion_head_config;
        let a = &self.acoustic_tokenizer_config;
        if self.tts_backbone_num_hidden_layers >= self.decoder_config.num_hidden_layers {
            return Err(
                "VibeVoice TTS backbone must leave at least one text-only layer".to_owned(),
            );
        }
        if self.acoustic_vae_dim != a.vae_dim || self.acoustic_vae_dim != h.latent_size
            || self.acoustic_vae_dim != h.speech_vae_dim {
            return Err("VibeVoice acoustic latent dimensions disagree".to_owned());
        }
        if h.hidden_size != self.decoder_config.hidden_size {
            return Err("VibeVoice diffusion and decoder hidden sizes disagree".to_owned());
        }
        if !a.causal {
            return Err("VibeVoice-Realtime requires a causal acoustic decoder".to_owned());
        }
        if a.channels != 1 {
            return Err("only mono VibeVoice audio is supported".to_owned());
        }
        if a.decoder_ratios.len() == 0 || !none_zero(&a.decoder_ratios) {
            return Err("VibeVoice decoder ratios must be non-zero".to_owned());
        }
        if h.ddpm_num_inference_steps == 0 || h.ddpm_num_steps < h.ddpm_num_inference_steps {
            return Err("invalid VibeVoice diffusion schedule".to_owned());
        }
        Ok(())
    }

    /// Checks that the configuration can be run.
    pub fn validate(&self) -> (outcome: Result<(), String>)
        requires
            heads_counted(*self),
        ensures
            reports(outcome, config_fault(*self)),
    {
        match self.validate_kinds() {
            Err(message) => {
                return Err(message);
            },
            Ok(_) => {},
        }
        let d = &self.decoder_config;
        if d.hidden_size % d.num_attention_heads != 0 {
            return Err("VibeVoice hidden size is not divisible by its attention heads".to_owned());
        }
        if d.num_attention_heads % d.num_key_value_heads != 0 {
            return Err("VibeVoice attention heads are not divisible by KV heads".to_owned());
        }
        self.validate_shapes()
    }

    /// How wide an attention head is.
    pub fn head_dim(&self) -> (n: usize)
        requires
            self.decoder_config.num_attention_heads > 0,
        ensures
            n == self.decoder_config.hidden_size as int
                / self.decoder_config.num_attention_heads as int,
    {
        self.decoder_config.hidden_size / self.decoder_config.num_attention_heads
    }

    /// How many layers only read text.
    pub fn text_layers(&self) -> (n: usize)
        requires
            self.tts_backbone_num_hidden_layers <= self.decoder_config.num_hidden_layers,
        ensures
            n == self.decoder_config.num_hidden_layers - self.tts_backbone_num_hidden_layers,
    {
        self.decoder_config.num_hidden_layers - self.tts_backbone_num_hidden_layers
    }

    /// How many samples an acoustic latent stands for.
    pub fn samples_per_latent(&self) -> (n: usize)
        requires
            multipliable(self.acoustic_tokenizer_config.decoder_ratios@),
        ensures
            n == ratio_product(self.acoustic_tokenizer_config.decoder_ratios@),
    {
        let ratios = &self.acoustic_tokenizer_config.decoder_ratios;
        let mut n: usize = 1;
        for i in 0..ratios.len()
            invariant
                multipliable(ratios@),
                n == ratio_product(ratios@.take(i as int)),
        {
            proof {
                assert(ratios@.take(i + 1).drop_last() =~= ratios@.take(i as int));
                assert(ratio_product(ratios@.take(i + 1)) <= usize::MAX);
            }
            n = n * ratios[i];
        }
        assert(ratios@.take(ratios@.len() as int) =~= ratios@);
        n
    }
}

/// A configuration that passes has at least one text layer, and its heads
/// divide its width.
pub proof fn law_valid_geometry_divides(c: VibeVoiceConfig)
    requires
        heads_counted(c),
        config_fault(c) is None,
    ensures
        c.decoder_config.num_hidden_layers - c.tts_backbone_num_hidden_layers >= 1,
        c.decoder_config.num_attention_heads > 0,
        c.decoder_config.num_key_value_heads > 0,
        (c.decoder_config.hidden_size as int / c.decoder_config.num_attention_heads as int)
            * c.decoder_config.num_attention_heads == c.decoder_config.hidden_size,
{
    let a = c.decoder_config.hidden_size as int;
    let b = c.decoder_config.num_attention_heads as int;
    vstd::arithmetic::div_mod::lemma_fundamental_div_mod(a, b);
    assert((a / b) * b == b * (a / b)) by (nonlinear_arith);
}

} // verus!
