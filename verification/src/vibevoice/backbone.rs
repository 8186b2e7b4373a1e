//! The two language-model stacks.
use vstd::prelude::*;
use crate::device::Plan;
use crate::qwen3_tts::config::{CodePredictorConfig, TalkerConfig};
use crate::qwen3_tts::layer::Attention;
use crate::qwen3_tts::precision::Bf16;
use crate::qwen3_tts::stack::{
    TalkerTransformer, final_norm_tensor, layers_from, lemma_stack_len, stack_tensors,
};
use crate::vibevoice::config::VibeVoiceConfig;
use crate::weights::{Fault, Loader, Tensor, lemma_stores_split, stores};

verus! {

/// How wide an attention head is.
pub open spec fn head_width(c: VibeVoiceConfig) -> usize {
    (c.decoder_config.hidden_size as int / c.decoder_config.num_attention_heads as int) as usize
}

/// `t` is the geometry of a stack of `layers` layers.
pub open spec fn is_stack_config(t: TalkerConfig, c: VibeVoiceConfig, layers: usize) -> bool {
    let d = c.decoder_config;
    &&& t.hidden_size == d.hidden_size
    &&& t.intermediate_size == d.intermediate_size
    &&& t.num_hidden_layers == layers
    &&& t.num_attention_heads == d.num_attention_heads
    &&& t.num_key_value_heads == d.num_key_value_heads
    &&& t.head_dim == head_width(c)
    &&& t.vocab_size == d.vocab_size
    &&& t.text_vocab_size == d.vocab_size
    &&& t.text_hidden_size == d.hidden_size
    &&& t.num_code_groups == 2
    &&& t.max_position_embeddings == d.max_position_embeddings
    &&& t.rope_theta == d.rope_theta
    &&& t.rms_norm_eps == d.rms_norm_eps
    &&& t.codec_language_id@.len() == 0
    &&& t.code_predictor_config == (CodePredictorConfig {
        hidden_size: d.hidden_size,
        intermediate_size: d.intermediate_size,
        num_hidden_layers: 1,
        num_attention_heads: d.num_attention_heads,
        num_key_value_heads: d.num_key_value_heads,
        head_dim: head_width(c),
        vocab_size: 1,
        num_code_groups: 2,
        max_position_embeddings: d.max_position_embeddings,
        rope_theta: d.rope_theta,
        rms_norm_eps: d.rms_norm_eps,
    })
}

/// The geometry of a stack of `layers` layers. The parts that a plain stack
/// does not read are the smallest possible.
pub fn transformer_config(config: &VibeVoiceConfig, layers: usize) -> (t: TalkerConfig)
    requires
        config.decoder_config.num_attention_heads > 0,
    ensures
        is_stack_config(t, *config, layers),
{
    let d = &config.decoder_config;
    let head_dim: usize = config.head_dim();
    let predictor = CodePredictorConfig {
        hidden_size: d.hidden_size,
        intermediate_size: d.intermediate_size,
        num_hidden_layers: 1,
        num_attention_heads: d.num_attention_heads,
        num_key_value_heads: d.num_key_value_heads,
        head_dim,
        vocab_size: 1,
        num_code_groups: 2,
        max_position_embeddings: d.max_position_embeddings,
        rope_theta: d.rope_theta,
        rms_norm_eps: d.rms_norm_eps,
    };
    TalkerConfig {
        hidden_size: d.hidden_size,
        intermediate_size: d.intermediate_size,
        num_hidden_layers: layers,
        num_attention_heads: d.num_attention_heads,
        num_key_value_heads: d.num_key_value_heads,
        head_dim,
        vocab_size: d.vocab_size,
        text_vocab_size: d.vocab_size,
        text_hidden_size: d.hidden_size,
        num_code_groups: 2,
        max_position_embeddings: d.max_position_embeddings,
        rope_theta: d.rope_theta,
        rms_norm_eps: d.rms_norm_eps,
        code_predictor_config: predictor,
        codec_language_id: Vec::new(),
    }
}

/// The two stacks, whose weights are brain floats, and their geometries.
pub struct VibeVoiceBackbones {
    pub text: TalkerTransformer<Bf16>,
    pub tts: TalkerTransformer<Bf16>,
    pub text_config: TalkerConfig,
    pub tts_config: TalkerConfig,
}

/// The tensors of the text stack.
pub open spec fn text_tensors(text: TalkerConfig) -> Seq<Tensor> {
    stack_tensors(
        "model.language_model"@ + ".layers."@,
        text,
        Attention::Biased,
        text.num_hidden_layers as nat,
    )
}

/// The tensors of both stacks; only the second ends in a normalisation.
pub open spec fn backbone_tensors(text: TalkerConfig, tts: TalkerConfig) -> Seq<Tensor> {
    text_tensors(text) + stack_tensors(
        "model.tts_language_model"@ + ".layers."@,
        tts,
        Attention::Biased,
        tts.num_hidden_layers as nat,
    ) + seq![
        final_norm_tensor(
            "model.tts_language_model"@ + ".norm.weight"@,
            Fault::expected(),
            tts,
        ),
    ]
}

impl VibeVoiceBackbones {
    /// Requires the weights of both stacks.
    pub fn load(loader: &mut Loader, config: &VibeVoiceConfig) -> (backbones: Self)
        requires
            old(loader).wf(),
            config.decoder_config.num_attention_heads > 0,
            config.tts_backbone_num_hidden_layers <= config.decoder_config.num_hidden_layers,
            forall|t: TalkerConfig, n: usize| #[trigger]
                is_stack_config(t, *config, n) ==> t.matrices_fit(),
        ensures
            final(loader).wf(),
            is_stack_config(
                backbones.text_config,
                *config,
                (config.decoder_config.num_hidden_layers - config.tts_backbone_num_hidden_layers)
                    as usize,
            ),
            is_stack_config(
                backbones.tts_config,
                *config,
                config.tts_backbone_num_hidden_layers,
            ),
            backbones.text.layers@.len() == backbones.text_config.num_hidden_layers,
            backbones.tts.layers@.len() == backbones.tts_config.num_hidden_layers,
            layers_from(
                backbones.text.layers@,
                old(loader).tensors().len() as int,
                Attention::Biased,
            ),
            layers_from(
                backbones.tts.layers@,
                (old(loader).tensors().len() + text_tensors(backbones.text_config).len()) as int,
                Attention::Biased,
            ),
            backbones.text.is_rotary(),
            backbones.tts.is_rotary(),
            backbones.text.final_norm is None,
            backbones.tts.final_norm == Some((final(loader).tensors().len() - 1) as usize),
            final(loader).tensors() == old(loader).tensors() + backbone_tensors(
                backbones.text_config,
                backbones.tts_config,
            ),
    {
        let ghost before = loader.tensors();
        let text_config = transformer_config(config, config.text_layers());
        let tts_config = transformer_config(config, config.tts_backbone_num_hidden_layers);
        let text = TalkerTransformer::load_qwen2(
            loader,
            "model.language_model",
            &text_config,
            false,
        );
        let tts = TalkerTransformer::load_qwen2(
            loader,
            "model.tts_language_model",
            &tts_config,
            true,
        );
        assert(loader.tensors() =~= before + backbone_tensors(text_config, tts_config));
        VibeVoiceBackbones { text, tts, text_config, tts_config }
    }
}

impl VibeVoiceBackbones {
    /// Loaded weights of both stacks exist at their full size.
    pub proof fn law_loaded_weights_fit(self, plan: Plan, base: int)
        requires
            self.text_config.matrices_fit(),
            self.tts_config.matrices_fit(),
            self.text.layers@.len() == self.text_config.num_hidden_layers,
            self.tts.layers@.len() == self.tts_config.num_hidden_layers,
            layers_from(self.text.layers@, base, Attention::Biased),
            layers_from(
                self.tts.layers@,
                base + text_tensors(self.text_config).len(),
                Attention::Biased,
            ),
            self.text.final_norm is None,
            self.tts.final_norm == Some(
                (base + backbone_tensors(self.text_config, self.tts_config).len() - 1) as usize,
            ),
            stores(plan, base, backbone_tensors(self.text_config, self.tts_config)),
        ensures
            self.text.fits(plan, self.text_config),
            self.tts.fits(plan, self.tts_config),
    {
        let a = text_tensors(self.text_config);
        let prefix = "model.tts_language_model"@ + ".layers."@;
        let n = self.tts_config.num_hidden_layers as nat;
        let b = stack_tensors(prefix, self.tts_config, Attention::Biased, n);
        let norm = seq![
            final_norm_tensor(
                "model.tts_language_model"@ + ".norm.weight"@,
                Fault::expected(),
                self.tts_config,
            ),
        ];
        assert(backbone_tensors(self.text_config, self.tts_config) =~= a + (b + norm));
        lemma_stores_split(plan, base, a, b + norm);
        assert(a + Seq::<Tensor>::empty() =~= a);
        self.text.law_loaded_weights_fit(
            plan,
            base,
            "model.language_model"@ + ".layers."@,
            self.text_config,
            Attention::Biased,
            Seq::empty(),
        );
        lemma_stack_len(prefix, self.tts_config, Attention::Biased, n);
        reveal(stores);
        self.tts.law_loaded_weights_fit(
            plan,
            base + a.len(),
            prefix,
            self.tts_config,
            Attention::Biased,
            norm,
        );
    }
}

} // verus!
