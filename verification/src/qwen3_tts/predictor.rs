//! The code predictor: a small decoder stack that runs after every talker
//! step.
use vstd::prelude::*;
use vstd::string::*;
use crate::device::{Plan, Term, extends, sized};
use crate::qwen3_tts::config::{CodePredictorConfig, TalkerConfig};
use crate::qwen3_tts::layer::{Attention, countable, optional, storable};
use crate::qwen3_tts::precision::F16;
use crate::qwen3_tts::stack::{
    TalkerTransformer, empty_caches, final_norm_tensor, input_complaint, input_fault, layers_from,
    load_layers, stack_output, stack_tensors,
};
use crate::weights::{Complaint, Fault, Loader};

verus! {

/// The stack together with its geometry in the talker's terms.
pub struct CodePredictorTransformer {
    pub stack: TalkerTransformer<F16>,
    pub geometry: TalkerConfig,
}

/// `geometry` describes the code predictor `c` in the talker's terms.
pub open spec fn is_geometry_of(geometry: TalkerConfig, c: CodePredictorConfig) -> bool {
    &&& geometry.hidden_size == c.hidden_size
    &&& geometry.intermediate_size == c.intermediate_size
    &&& geometry.num_hidden_layers == c.num_hidden_layers
    &&& geometry.num_attention_heads == c.num_attention_heads
    &&& geometry.num_key_value_heads == c.num_key_value_heads
    &&& geometry.head_dim == c.head_dim
    &&& geometry.vocab_size == c.vocab_size
    &&& geometry.text_vocab_size == 0
    &&& geometry.text_hidden_size == c.hidden_size
    &&& geometry.num_code_groups == c.num_code_groups
    &&& geometry.max_position_embeddings == c.max_position_embeddings
    &&& geometry.rope_theta == c.rope_theta
    &&& geometry.rms_norm_eps == c.rms_norm_eps
    &&& geometry.code_predictor_config == c
    &&& geometry.codec_language_id@.len() == 0
}

/// The geometry of the code predictor in the talker's terms.
pub fn predictor_geometry(config: &CodePredictorConfig) -> (geometry: TalkerConfig)
    ensures
        is_geometry_of(geometry, *config),
{
    TalkerConfig {
        hidden_size: config.hidden_size,
        intermediate_size: config.intermediate_size,
        num_hidden_layers: config.num_hidden_layers,
        num_attention_heads: config.num_attention_heads,
        num_key_value_heads: config.num_key_value_heads,
        head_dim: config.head_dim,
        vocab_size: config.vocab_size,
        text_vocab_size: 0,
        text_hidden_size: config.hidden_size,
        num_code_groups: config.num_code_groups,
        max_position_embeddings: config.max_position_embeddings,
        rope_theta: config.rope_theta,
        rms_norm_eps: config.rms_norm_eps,
        code_predictor_config: *config,
        codec_language_id: Vec::new(),
    }
}

/// Every weight matrix of a predictor layer has a count of elements that fits.
pub open spec fn predictor_matrices_fit(c: CodePredictorConfig) -> bool {
    &&& c.num_attention_heads * c.head_dim <= usize::MAX
    &&& c.num_key_value_heads * c.head_dim <= usize::MAX
    &&& c.num_attention_heads * c.head_dim * c.hidden_size <= usize::MAX
    &&& c.num_key_value_heads * c.head_dim * c.hidden_size <= usize::MAX
    &&& c.intermediate_size * c.hidden_size <= usize::MAX
}

/// Why the predictor cannot run `seq_len` tokens, if it cannot.
pub open spec fn predictor_fault(
    hidden_len: usize,
    seq_len: usize,
    max_seq_len: usize,
    c: TalkerConfig,
    layers: int,
) -> Option<Seq<char>> {
    if seq_len == 0 {
        Some("sequence length must be non-zero"@)
    } else if hidden_len != seq_len * c.hidden_size {
        Some(input_fault(hidden_len, seq_len * c.hidden_size))
    } else if max_seq_len < seq_len {
        Some("KV cache is smaller than the input"@)
    } else if layers > 0 && seq_len > u32::MAX {
        Some("sequence length exceeds CUDA limits"@)
    } else {
        None
    }
}

impl CodePredictorTransformer {
    /// Requires the weights of the code predictor.
    pub fn load(loader: &mut Loader, config: &CodePredictorConfig) -> (model: Self)
        requires
            old(loader).wf(),
            predictor_matrices_fit(*config),
        ensures
            final(loader).wf(),
            is_geometry_of(model.geometry, *config),
            model.stack.is_rotary(),
            model.stack.layers@.len() == config.num_hidden_layers,
            layers_from(
                model.stack.layers@,
                old(loader).tensors().len() as int,
                Attention::QkNorm,
            ),
            model.stack.final_norm == Some((final(loader).tensors().len() - 1) as usize),
            final(loader).tensors() == old(loader).tensors() + stack_tensors(
                "talker.code_predictor.model.layers."@,
                model.geometry,
                Attention::QkNorm,
                config.num_hidden_layers as nat,
            ) + seq![
                final_norm_tensor(
                    "talker.code_predictor.model.norm.weight"@,
                    Fault::labelled("code predictor final norm"@),
                    model.geometry,
                ),
            ],
    {
        let geometry = predictor_geometry(config);
        let layers = load_layers(
            loader,
            "talker.code_predictor.model.layers.",
            &geometry,
            Attention::QkNorm,
        );
        let ghost mid = loader.tensors();
        let final_norm: usize = loader.vector(
            "talker.code_predictor.model.norm.weight".to_owned(),
            config.hidden_size,
            Complaint::labelled("code predictor final norm".to_owned()),
        );
        assert(loader.tensors() =~= mid + seq![
            final_norm_tensor(
                "talker.code_predictor.model.norm.weight"@,
                Fault::labelled("code predictor final norm"@),
                geometry,
            ),
        ]);
        CodePredictorTransformer {
            stack: TalkerTransformer::rotary(layers, Some(final_norm)),
            geometry,
        }
    }

    /// How many layers the predictor has.
    pub fn layer_count(&self) -> (n: usize)
        ensures
            n == self.stack.layers@.len(),
    {
        self.stack.layers.len()
    }

    /// Runs one prepared sequence with fresh caches. The states become a given
    /// buffer; the result names the buffer that holds the normalised rows.
    pub fn forward_hidden(
        &self,
        plan: &mut Plan,
        hidden_len: usize,
        seq_len: usize,
        max_seq_len: usize,
    ) -> (outcome: Result<usize, String>)
        requires
            old(plan).wf(),
            self.stack.fits(*old(plan), self.geometry),
            self.stack.final_norm is Some,
            self.stack.is_rotary(),
            storable(self.geometry, seq_len),
            max_seq_len * self.geometry.kv_dim() <= usize::MAX,
            predictor_fault(
                hidden_len,
                seq_len,
                max_seq_len,
                self.geometry,
                self.stack.layers@.len() as int,
            ) is None ==> seq_len <= u32::MAX && countable::<F16>(self.geometry, seq_len as int),
        ensures
            final(plan).wf(),
            match outcome {
                Err(message) => {
                    &&& predictor_fault(
                        hidden_len,
                        seq_len,
                        max_seq_len,
                        self.geometry,
                        self.stack.layers@.len() as int,
                    ) == Some(message@)
                    &&& *final(plan) == *old(plan)
                },
                Ok(output) => {
                    &&& predictor_fault(
                        hidden_len,
                        seq_len,
                        max_seq_len,
                        self.geometry,
                        self.stack.layers@.len() as int,
                    ) is None
                    &&& sized(*final(plan), output, seq_len * self.geometry.hidden_size)
                    &&& final(plan).values()[output as int] == stack_output::<F16>(
                        self.stack.weights(*old(plan)),
                        optional(old(plan).values(), self.stack.final_norm),
                        empty_caches(
                            self.stack.layers@.len(),
                            max_seq_len * self.geometry.kv_dim(),
                        ),
                        Term::Given(old(plan).steps().len()),
                        self.geometry,
                        seq_len as u32,
                        0,
                    )
                    &&& extends(*old(plan), *final(plan))
                },
            },
    {
        if seq_len == 0 {
            return Err("sequence length must be non-zero".to_owned());
        }
        if hidden_len != seq_len * self.geometry.hidden_size {
            return Err(input_complaint(hidden_len, seq_len * self.geometry.hidden_size));
        }
        if max_seq_len < seq_len {
            return Err("KV cache is smaller than the input".to_owned());
        }
        self.stack.forward_hidden(plan, hidden_len, seq_len, max_seq_len, &self.geometry)
    }
}

} // verus!
