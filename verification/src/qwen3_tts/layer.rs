//! One decoder layer of the talker: attention over a growing key/value cache
//! followed by a gated feed-forward network.
use std::marker::PhantomData;
use vstd::prelude::*;
use vstd::string::*;
use crate::device::{Plan, Scalar, Term, extends, holds, sized};
use crate::device::value::{copy_f16_at, mha_fused, rms_norm, rope_neox};
use crate::qwen3_tts::config::TalkerConfig;
use crate::qwen3_tts::precision::{F16, QwenDType};
use crate::text::{decimal, to_decimal};
use crate::weights::{Complaint, Fault, Loader, Role, Tensor, lemma_stored1, lemma_stored2, stores};

verus! {

/// What an attention block has besides its projections.
#[derive(Clone, Copy, Debug, PartialEq, Eq, Structural)]
pub enum Attention {
    /// Per-head RMS normalisation of queries and keys.
    QkNorm,
    /// Biases on the query, key and value projections.
    Biased,
    /// Neither.
    Plain,
}

/// The weights of one decoder layer, as buffers of the precision `T`; the scales
/// of head normalisation are in half precision.
#[derive(Debug)]
pub struct TalkerDecoderLayer<T: QwenDType = F16> {
    pub input_norm: usize,
    pub q_proj: usize,
    pub k_proj: usize,
    pub v_proj: usize,
    pub q_bias: Option<usize>,
    pub k_bias: Option<usize>,
    pub v_bias: Option<usize>,
    pub q_norm: Option<usize>,
    pub k_norm: Option<usize>,
    pub o_proj: usize,
    pub post_attention_norm: usize,
    pub gate_proj: usize,
    pub up_proj: usize,
    pub down_proj: usize,
    pub precision: PhantomData<T>,
}

/// Keys and values of the tokens one layer has seen.
#[derive(Clone, Copy, Debug, PartialEq, Eq, Structural)]
pub struct TalkerLayerKvCache {
    pub k: usize,
    pub v: usize,
    pub position: usize,
    pub max_seq_len: usize,
    pub kv_dim: usize,
}

/// Working buffers shared by every layer. Those of the precision `T` that have a
/// counterpart in half precision are called native.
#[derive(Debug)]
pub struct TalkerLayerScratch<T: QwenDType = F16> {
    pub max_tokens: usize,
    pub norm: usize,
    pub q_native: usize,
    pub k_native: usize,
    pub v_native: usize,
    pub q: usize,
    pub k: usize,
    pub v: usize,
    pub attention: usize,
    pub attention_native: usize,
    pub attention_out: usize,
    pub gate: usize,
    pub up: usize,
    pub activation: usize,
    pub mlp_out: usize,
    pub precision: PhantomData<T>,
}

/// The tensor `prefix.suffix`, with its name and both shapes in the complaint.
pub open spec fn named(prefix: Seq<char>, suffix: Seq<char>, shape: Seq<usize>) -> Tensor {
    Tensor { name: prefix + "."@ + suffix, shape, fault: Fault::expected(), role: Role::Plain }
}

/// The tensors of a decoder layer in loading order.
pub open spec fn layer_tensors(prefix: Seq<char>, c: TalkerConfig, attention: Attention) -> Seq<
    Tensor,
> {
    let hidden = c.hidden_size;
    let q_dim = c.q_dim() as usize;
    let kv_dim = c.kv_dim() as usize;
    let extras = match attention {
        Attention::QkNorm => seq![
            named(prefix, "self_attn.q_norm.weight"@, seq![c.head_dim]),
            named(prefix, "self_attn.k_norm.weight"@, seq![c.head_dim]),
        ],
        Attention::Biased => seq![
            named(prefix, "self_attn.q_proj.bias"@, seq![q_dim]),
            named(prefix, "self_attn.k_proj.bias"@, seq![kv_dim]),
            named(prefix, "self_attn.v_proj.bias"@, seq![kv_dim]),
        ],
        Attention::Plain => seq![],
    };
    seq![
        named(prefix, "input_layernorm.weight"@, seq![hidden]),
        named(prefix, "self_attn.q_proj.weight"@, seq![q_dim, hidden]),
        named(prefix, "self_attn.k_proj.weight"@, seq![kv_dim, hidden]),
        named(prefix, "self_attn.v_proj.weight"@, seq![kv_dim, hidden]),
    ] + extras + seq![
        named(prefix, "self_attn.o_proj.weight"@, seq![hidden, q_dim]),
        named(prefix, "post_attention_layernorm.weight"@, seq![hidden]),
        named(prefix, "mlp.gate_proj.weight"@, seq![c.intermediate_size, hidden]),
        named(prefix, "mlp.up_proj.weight"@, seq![c.intermediate_size, hidden]),
        named(prefix, "mlp.down_proj.weight"@, seq![hidden, c.intermediate_size]),
    ]
}

/// How many tensors an attention block has besides its projections.
pub open spec fn extra_tensors(attention: Attention) -> int {
    match attention {
        Attention::QkNorm => 2,
        Attention::Biased => 3,
        Attention::Plain => 0,
    }
}

/// The layer whose first tensor is buffer `base`.
pub open spec fn layer_at<T: QwenDType>(base: int, attention: Attention) -> TalkerDecoderLayer<T> {
    let tail = base + 4 + extra_tensors(attention);
    TalkerDecoderLayer {
        input_norm: base as usize,
        q_proj: (base + 1) as usize,
        k_proj: (base + 2) as usize,
        v_proj: (base + 3) as usize,
        q_bias: if attention == Attention::Biased { Some((base + 4) as usize) } else { None },
        k_bias: if attention == Attention::Biased { Some((base + 5) as usize) } else { None },
        v_bias: if attention == Attention::Biased { Some((base + 6) as usize) } else { None },
        q_norm: if attention == Attention::QkNorm { Some((base + 4) as usize) } else { None },
        k_norm: if attention == Attention::QkNorm { Some((base + 5) as usize) } else { None },
        o_proj: tail as usize,
        post_attention_norm: (tail + 1) as usize,
        gate_proj: (tail + 2) as usize,
        up_proj: (tail + 3) as usize,
        down_proj: (tail + 4) as usize,
        precision: PhantomData,
    }
}

impl TalkerConfig {
    /// Every weight matrix of a layer has a count of elements that fits.
    pub open spec fn matrices_fit(self) -> bool {
        &&& self.q_dim() <= usize::MAX
        &&& self.kv_dim() <= usize::MAX
        &&& self.q_dim() * self.hidden_size <= usize::MAX
        &&& self.kv_dim() * self.hidden_size <= usize::MAX
        &&& self.intermediate_size * self.hidden_size <= usize::MAX
    }
}

/// `prefix.suffix`.
fn dotted(prefix: &str, suffix: &str) -> (name: String)
    ensures
        name@ == prefix@ + "."@ + suffix@,
{
    prefix.to_owned().concat(".").concat(suffix)
}

impl<T: QwenDType> TalkerDecoderLayer<T> {
    /// Requires the weights of talker layer `layer_index`.
    pub fn load(loader: &mut Loader, layer_index: usize, config: &TalkerConfig) -> (layer: Self)
        requires
            old(loader).wf(),
            config.matrices_fit(),
        ensures
            final(loader).wf(),
            layer == layer_at::<T>(old(loader).tensors().len() as int, Attention::QkNorm),
            final(loader).tensors() == old(loader).tensors() + layer_tensors(
                "talker.model.layers."@ + decimal(layer_index as nat),
                *config,
                Attention::QkNorm,
            ),
    {
        let prefix = "talker.model.layers.".to_owned().concat(&to_decimal(layer_index as u64));
        Self::load_from_prefix(loader, prefix.as_str(), config)
    }

    /// Requires the weights of a layer with query/key normalisation.
    pub fn load_from_prefix(loader: &mut Loader, prefix: &str, config: &TalkerConfig) -> (layer:
        Self)
        requires
            old(loader).wf(),
            config.matrices_fit(),
        ensures
            final(loader).wf(),
            layer == layer_at::<T>(old(loader).tensors().len() as int, Attention::QkNorm),
            final(loader).tensors() == old(loader).tensors() + layer_tensors(
                prefix@,
                *config,
                Attention::QkNorm,
            ),
    {
        Self::load_architecture(loader, prefix, config, Attention::QkNorm)
    }

    /// Requires the weights of a Qwen2 layer, which has biases instead.
    pub fn load_qwen2_from_prefix(loader: &mut Loader, prefix: &str, config: &TalkerConfig) -> (layer:
        Self)
        requires
            old(loader).wf(),
            config.matrices_fit(),
        ensures
            final(loader).wf(),
            layer == layer_at::<T>(old(loader).tensors().len() as int, Attention::Biased),
            final(loader).tensors() == old(loader).tensors() + layer_tensors(
                prefix@,
                *config,
                Attention::Biased,
            ),
    {
        Self::load_architecture(loader, prefix, config, Attention::Biased)
    }

    /// Requires the weights of a layer in loading order.
    pub fn load_architecture(
        loader: &mut Loader,
        prefix: &str,
        config: &TalkerConfig,
        attention: Attention,
    ) -> (layer: Self)
        requires
            old(loader).wf(),
            config.matrices_fit(),
        ensures
            final(loader).wf(),
            layer == layer_at::<T>(old(loader).tensors().len() as int, attention),
            final(loader).tensors() == old(loader).tensors() + layer_tensors(
                prefix@,
                *config,
                attention,
            ),
    {
        let hidden: usize = config.hidden_size;
        let q_dim: usize = config.num_attention_heads * config.head_dim;
        let kv_dim: usize = config.num_key_value_heads * config.head_dim;
        let intermediate: usize = config.intermediate_size;
        proof {
            assert(hidden * q_dim == q_dim * hidden) by (nonlinear_arith);
            assert(hidden * intermediate == intermediate * hidden) by (nonlinear_arith);
        }
        let input_norm: usize = loader.vector(
            dotted(prefix, "input_layernorm.weight"),
            hidden,
            Complaint::expected(),
        );
        let q_proj: usize = loader.matrix(
            dotted(prefix, "self_attn.q_proj.weight"),
            q_dim,
            hidden,
            Complaint::expected(),
        );
        let k_proj: usize = loader.matrix(
            dotted(prefix, "self_attn.k_proj.weight"),
            kv_dim,
            hidden,
            Complaint::expected(),
        );
        let v_proj: usize = loader.matrix(
            dotted(prefix, "self_attn.v_proj.weight"),
            kv_dim,
            hidden,
            Complaint::expected(),
        );
        let mut q_bias: Option<usize> = None;
        let mut k_bias: Option<usize> = None;
        let mut v_bias: Option<usize> = None;
        let mut q_norm: Option<usize> = None;
        let mut k_norm: Option<usize> = None;
        match attention {
            Attention::Biased => {
                q_bias = Some(
                    loader.vector(
                        dotted(prefix, "self_attn.q_proj.bias"),
                        q_dim,
                        Complaint::expected(),
                    ),
                );
                k_bias = Some(
                    loader.vector(
                        dotted(prefix, "self_attn.k_proj.bias"),
                        kv_dim,
                        Complaint::expected(),
                    ),
                );
                v_bias = Some(
                    loader.vector(
                        dotted(prefix, "self_attn.v_proj.bias"),
                        kv_dim,
                        Complaint::expected(),
                    ),
                );
            },
            Attention::QkNorm => {
                q_norm = Some(
                    loader.vector(
                        dotted(prefix, "self_attn.q_norm.weight"),
                        config.head_dim,
                        Complaint::expected(),
                    ),
                );
                k_norm = Some(
                    loader.vector(
                        dotted(prefix, "self_attn.k_norm.weight"),
                        config.head_dim,
                        Complaint::expected(),
                    ),
                );
            },
            Attention::Plain => {},
        }
        let o_proj: usize = loader.matrix(
            dotted(prefix, "self_attn.o_proj.weight"),
            hidden,
            q_dim,
            Complaint::expected(),
        );
        let post_attention_norm: usize = loader.vector(
            dotted(prefix, "post_attention_layernorm.weight"),
            hidden,
            Complaint::expected(),
        );
        let gate_proj: usize = loader.matrix(
            dotted(prefix, "mlp.gate_proj.weight"),
            intermediate,
            hidden,
            Complaint::expected(),
        );
        let up_proj: usize = loader.matrix(
            dotted(prefix, "mlp.up_proj.weight"),
            intermediate,
            hidden,
            Complaint::expected(),
        );
        let down_proj: usize = loader.matrix(
            dotted(prefix, "mlp.down_proj.weight"),
            hidden,
            intermediate,
            Complaint::expected(),
        );
        assert(loader.tensors() =~= old(loader).tensors() + layer_tensors(
            prefix@,
            *config,
            attention,
        ));
        TalkerDecoderLayer {
            input_norm,
            q_proj,
            k_proj,
            v_proj,
            q_bias,
            k_bias,
            v_bias,
            q_norm,
            k_norm,
            o_proj,
            post_attention_norm,
            gate_proj,
            up_proj,
            down_proj,
            precision: PhantomData,
        }
    }
}

/// `id` lies outside the `n` buffers that start at `first`.
pub open spec fn outside(id: usize, first: usize, n: int) -> bool {
    id < first || id >= first + n
}

impl<T: QwenDType> TalkerLayerScratch<T> {
    /// The buffers follow one another.
    pub open spec fn consecutive(self) -> bool {
        &&& self.norm + 14 <= usize::MAX
        &&& self.q_native == self.norm + 1
        &&& self.k_native == self.norm + 2
        &&& self.v_native == self.norm + 3
        &&& self.q == self.norm + 4
        &&& self.k == self.norm + 5
        &&& self.v == self.norm + 6
        &&& self.attention == self.norm + 7
        &&& self.attention_native == self.norm + 8
        &&& self.attention_out == self.norm + 9
        &&& self.gate == self.norm + 10
        &&& self.up == self.norm + 11
        &&& self.activation == self.norm + 12
        &&& self.mlp_out == self.norm + 13
    }

    /// The buffers hold `max_tokens` tokens of the model.
    pub open spec fn fits(self, plan: Plan, c: TalkerConfig) -> bool {
        &&& self.consecutive()
        &&& sized(plan, self.norm, self.max_tokens * c.hidden_size)
        &&& holds(plan, self.q_native, self.max_tokens * c.q_dim())
        &&& holds(plan, self.k_native, self.max_tokens * c.kv_dim())
        &&& holds(plan, self.v_native, self.max_tokens * c.kv_dim())
        &&& holds(plan, self.q, self.max_tokens * c.q_dim())
        &&& holds(plan, self.k, self.max_tokens * c.kv_dim())
        &&& holds(plan, self.v, self.max_tokens * c.kv_dim())
        &&& holds(plan, self.attention, self.max_tokens * c.q_dim())
        &&& holds(plan, self.attention_native, self.max_tokens * c.q_dim())
        &&& holds(plan, self.attention_out, self.max_tokens * c.hidden_size)
        &&& holds(plan, self.gate, self.max_tokens * c.intermediate_size)
        &&& holds(plan, self.up, self.max_tokens * c.intermediate_size)
        &&& holds(plan, self.activation, self.max_tokens * c.intermediate_size)
        &&& holds(plan, self.mlp_out, self.max_tokens * c.hidden_size)
    }

    /// Allocates working buffers for `max_tokens` tokens.
    pub fn allocate(plan: &mut Plan, max_tokens: usize, config: &TalkerConfig) -> (outcome: Result<
        Self,
        String,
    >)
        requires
            old(plan).wf(),
            config.q_dim() <= usize::MAX,
            config.kv_dim() <= usize::MAX,
            max_tokens * config.hidden_size <= usize::MAX,
            max_tokens * config.q_dim() <= usize::MAX,
            max_tokens * config.kv_dim() <= usize::MAX,
            max_tokens * config.intermediate_size <= usize::MAX,
        ensures
            final(plan).wf(),
            match outcome {
                Ok(scratch) => {
                    &&& max_tokens > 0
                    &&& scratch.max_tokens == max_tokens
                    &&& scratch.norm == old(plan).values().len()
                    &&& scratch.fits(*final(plan), *config)
                    &&& final(plan).values().len() == old(plan).values().len() + 14
                    &&& extends(*old(plan), *final(plan))
                },
                Err(message) => {
                    &&& max_tokens == 0
                    &&& message@ == "scratch capacity must be non-zero"@
                    &&& *final(plan) == *old(plan)
                },
            },
    {
        if max_tokens == 0 {
            return Err("scratch capacity must be non-zero".to_owned());
        }
        let hidden: usize = config.hidden_size;
        let q_dim: usize = config.num_attention_heads * config.head_dim;
        let kv_dim: usize = config.num_key_value_heads * config.head_dim;
        let intermediate: usize = config.intermediate_size;
        let norm: usize = plan.zeros(max_tokens * hidden);
        let q_native: usize = plan.zeros(max_tokens * q_dim);
        let k_native: usize = plan.zeros(max_tokens * kv_dim);
        let v_native: usize = plan.zeros(max_tokens * kv_dim);
        let q: usize = plan.zeros(max_tokens * q_dim);
        let k: usize = plan.zeros(max_tokens * kv_dim);
        let v: usize = plan.zeros(max_tokens * kv_dim);
        let attention: usize = plan.zeros(max_tokens * q_dim);
        let attention_native: usize = plan.zeros(max_tokens * q_dim);
        let attention_out: usize = plan.zeros(max_tokens * hidden);
        let gate: usize = plan.zeros(max_tokens * intermediate);
        let up: usize = plan.zeros(max_tokens * intermediate);
        let activation: usize = plan.zeros(max_tokens * intermediate);
        let mlp_out: usize = plan.zeros(max_tokens * hidden);
        proof {
            plan.lemma_buffers_fit();
        }
        Ok(
            TalkerLayerScratch {
                max_tokens,
                norm,
                q_native,
                k_native,
                v_native,
                q,
                k,
                v,
                attention,
                attention_native,
                attention_out,
                gate,
                up,
                activation,
                mlp_out,
                precision: PhantomData,
            },
        )
    }
}

impl TalkerLayerKvCache {
    /// The cached tokens lie within the buffers.
    pub open spec fn fits(self, plan: Plan) -> bool {
        &&& self.position <= self.max_seq_len
        &&& self.k != self.v
        &&& holds(plan, self.k, self.max_seq_len * self.kv_dim)
        &&& holds(plan, self.v, self.max_seq_len * self.kv_dim)
    }

    /// Allocates an empty cache for `max_seq_len` tokens.
    pub fn allocate(plan: &mut Plan, max_seq_len: usize, config: &TalkerConfig) -> (outcome: Result<
        Self,
        String,
    >)
        requires
            old(plan).wf(),
            config.kv_dim() <= usize::MAX,
            max_seq_len * config.kv_dim() <= usize::MAX,
        ensures
            final(plan).wf(),
            match outcome {
                Ok(cache) => {
                    &&& max_seq_len > 0
                    &&& cache.position == 0
                    &&& cache.max_seq_len == max_seq_len
                    &&& cache.kv_dim == config.kv_dim()
                    &&& cache.k == old(plan).values().len()
                    &&& cache.v == cache.k + 1
                    &&& cache.fits(*final(plan))
                    &&& final(plan).steps().len() == old(plan).steps().len() + 2
                    &&& final(plan).values() == old(plan).values().push(
                        Term::Zeros((max_seq_len * config.kv_dim()) as nat),
                    ).push(Term::Zeros((max_seq_len * config.kv_dim()) as nat))
                    &&& final(plan).sizes() == old(plan).sizes().push(
                        (max_seq_len * config.kv_dim()) as usize,
                    ).push((max_seq_len * config.kv_dim()) as usize)
                },
                Err(message) => {
                    &&& max_seq_len == 0
                    &&& message@ == "KV cache capacity must be non-zero"@
                    &&& *final(plan) == *old(plan)
                },
            },
    {
        if max_seq_len == 0 {
            return Err("KV cache capacity must be non-zero".to_owned());
        }
        let kv_dim: usize = config.num_key_value_heads * config.head_dim;
        let k: usize = plan.zeros(max_seq_len * kv_dim);
        let v: usize = plan.zeros(max_seq_len * kv_dim);
        Ok(TalkerLayerKvCache { k, v, position: 0, max_seq_len, kv_dim })
    }

    /// How many tokens are cached.
    pub fn position(&self) -> (n: usize)
        ensures
            n == self.position,
    {
        self.position
    }

    /// Forgets every cached token.
    pub fn reset(&mut self)
        ensures
            *final(self) == (TalkerLayerKvCache { position: 0, ..*old(self) }),
    {
        self.position = 0;
    }
}

/// The weights of a layer, by value.
pub struct LayerValues {
    pub input_norm: Term,
    pub q_proj: Term,
    pub k_proj: Term,
    pub v_proj: Term,
    pub q_bias: Option<Term>,
    pub k_bias: Option<Term>,
    pub v_bias: Option<Term>,
    pub q_norm: Option<Term>,
    pub k_norm: Option<Term>,
    pub o_proj: Term,
    pub post_attention_norm: Term,
    pub gate_proj: Term,
    pub up_proj: Term,
    pub down_proj: Term,
}

/// The value of an optional buffer.
pub open spec fn optional(values: Seq<Term>, buffer: Option<usize>) -> Option<Term> {
    match buffer {
        Some(b) => Some(values[b as int]),
        None => None,
    }
}

/// What a layer reads and leaves behind.
pub struct LayerState {
    pub hidden: Term,
    pub k: Term,
    pub v: Term,
}

/// A linear map of `rows` rows: a matrix-vector product for a single row.
pub open spec fn projected<T: QwenDType>(x: Term, weight: Term, rows: u32, n: u32, k: u32) -> Term {
    if rows == 1 {
        T::gemv_value(x, weight, n, k)
    } else {
        T::matmul_value(x, weight, rows, n, k)
    }
}

/// `x` with the bias added, if there is one.
pub open spec fn biased<T: QwenDType>(x: Term, bias: Option<Term>, rows: u32, dim: u32) -> Term {
    match bias {
        Some(b) => T::add_bias_value(x, b, rows, dim),
        None => x,
    }
}

/// The first `n` values of `x` in half precision.
pub open spec fn halved<T: QwenDType>(x: Term, n: u32) -> Term {
    if T::is_f16() {
        x
    } else {
        T::to_f16_value(x, x, n)
    }
}

/// The first `n` values of `x`, which are in half precision, in the precision
/// `T`.
pub open spec fn restored<T: QwenDType>(x: Term, n: u32) -> Term {
    if T::is_f16() {
        x
    } else {
        T::from_f16_value(x, x, n)
    }
}

/// `x` normalised per head, if there is a scale.
pub open spec fn head_normed(
    x: Term,
    weight: Option<Term>,
    rows: u32,
    dim: u32,
    eps: Scalar,
) -> Term {
    match weight {
        Some(w) => rms_norm(x, w, rows, dim, eps),
        None => x,
    }
}

/// The queries of `rows` tokens at `pos`: projected, normalised per head and
/// rotated.
pub open spec fn queries<T: QwenDType>(w: LayerValues, normed: Term, c: TalkerConfig, rows: u32, pos: usize) -> Term {
    let q_dim = c.q_dim() as u32;
    rope_neox(
        head_normed(
            halved::<T>(
                biased::<T>(
                    projected::<T>(normed, w.q_proj, rows, q_dim, c.hidden_size as u32),
                    w.q_bias,
                    rows,
                    q_dim,
                ),
                (rows * q_dim) as u32,
            ),
            w.q_norm,
            (rows * c.num_attention_heads) as u32,
            c.head_dim as u32,
            Scalar::Double(c.rms_norm_eps),
        ),
        rows,
        c.num_attention_heads as u32,
        c.head_dim as u32,
        pos as u32,
        Scalar::Double(c.rope_theta),
    )
}

/// The keys of `rows` tokens at `pos`: projected, normalised per head and
/// rotated.
pub open spec fn keys<T: QwenDType>(w: LayerValues, normed: Term, c: TalkerConfig, rows: u32, pos: usize) -> Term {
    let kv_dim = c.kv_dim() as u32;
    rope_neox(
        head_normed(
            halved::<T>(
                biased::<T>(
                    projected::<T>(normed, w.k_proj, rows, kv_dim, c.hidden_size as u32),
                    w.k_bias,
                    rows,
                    kv_dim,
                ),
                (rows * kv_dim) as u32,
            ),
            w.k_norm,
            (rows * c.num_key_value_heads) as u32,
            c.head_dim as u32,
            Scalar::Double(c.rms_norm_eps),
        ),
        rows,
        c.num_key_value_heads as u32,
        c.head_dim as u32,
        pos as u32,
        Scalar::Double(c.rope_theta),
    )
}

/// The attention values of `rows` tokens.
pub open spec fn attention_values<T: QwenDType>(w: LayerValues, normed: Term, c: TalkerConfig, rows: u32) -> Term {
    let kv_dim = c.kv_dim() as u32;
    halved::<T>(
        biased::<T>(
            projected::<T>(normed, w.v_proj, rows, kv_dim, c.hidden_size as u32),
            w.v_bias,
            rows,
            kv_dim,
        ),
        (rows * kv_dim) as u32,
    )
}

/// `rows` tokens attend to everything cached up to and with them; the result
/// is added to the residual stream.
pub open spec fn attended<T: QwenDType>(
    w: LayerValues,
    s: LayerState,
    c: TalkerConfig,
    rows: u32,
    pos: usize,
) -> LayerState {
    let hidden = c.hidden_size as u32;
    let normed = T::rms_norm_f32in_value(
        s.hidden,
        w.input_norm,
        rows,
        hidden,
        Scalar::Double(c.rms_norm_eps),
    );
    let count = (rows * c.kv_dim()) as u32;
    let offset = (pos * c.kv_dim()) as usize;
    let k = copy_f16_at(keys::<T>(w, normed, c, rows, pos), s.k, count, offset);
    let v = copy_f16_at(attention_values::<T>(w, normed, c, rows), s.v, count, offset);
    let out = mha_fused(
        queries::<T>(w, normed, c, rows, pos),
        k,
        v,
        c.head_dim as u32,
        c.num_attention_heads as u32,
        c.num_key_value_heads as u32,
        rows,
        (pos + rows) as u32,
        pos as u32,
    );
    LayerState {
        hidden: T::add_residual_value(
            s.hidden,
            projected::<T>(
                restored::<T>(out, (rows * c.q_dim()) as u32),
                w.o_proj,
                rows,
                hidden,
                c.q_dim() as u32,
            ),
            (rows * hidden) as u32,
        ),
        k,
        v,
    }
}

/// A normalised SwiGLU network added to the residual stream.
pub open spec fn fed_forward<T: QwenDType>(w: LayerValues, x: Term, c: TalkerConfig, rows: u32) -> Term {
    let hidden = c.hidden_size as u32;
    let inner = c.intermediate_size as u32;
    let normed = T::rms_norm_f32in_value(
        x,
        w.post_attention_norm,
        rows,
        hidden,
        Scalar::Double(c.rms_norm_eps),
    );
    let gate = if rows == 1 {
        T::gemv_dual_out_a_value(normed, w.gate_proj, w.up_proj, inner, hidden)
    } else {
        T::matmul_value(normed, w.gate_proj, rows, inner, hidden)
    };
    let up = if rows == 1 {
        T::gemv_dual_out_b_value(normed, w.gate_proj, w.up_proj, inner, hidden)
    } else {
        T::matmul_value(normed, w.up_proj, rows, inner, hidden)
    };
    T::add_residual_value(
        x,
        projected::<T>(T::silu_value(gate, up, (rows * inner) as u32), w.down_proj, rows, hidden, inner),
        (rows * hidden) as u32,
    )
}

/// What a decoder layer computes for `rows` new tokens after `pos` cached
/// ones: attention, then the feed-forward network.
#[verifier::opaque]
pub open spec fn decoder_layer<T: QwenDType>(
    w: LayerValues,
    s: LayerState,
    c: TalkerConfig,
    rows: u32,
    pos: usize,
) -> LayerState {
    let mid = attended::<T>(w, s, c, rows, pos);
    LayerState { hidden: fed_forward::<T>(w, mid.hidden, c, rows), ..mid }
}

impl<T: QwenDType> TalkerDecoderLayer<T> {
    /// The values of the layer's weights.
    pub open spec fn values(self, plan: Plan) -> LayerValues {
        let v = plan.values();
        LayerValues {
            input_norm: v[self.input_norm as int],
            q_proj: v[self.q_proj as int],
            k_proj: v[self.k_proj as int],
            v_proj: v[self.v_proj as int],
            q_bias: optional(v, self.q_bias),
            k_bias: optional(v, self.k_bias),
            v_bias: optional(v, self.v_bias),
            q_norm: optional(v, self.q_norm),
            k_norm: optional(v, self.k_norm),
            o_proj: v[self.o_proj as int],
            post_attention_norm: v[self.post_attention_norm as int],
            gate_proj: v[self.gate_proj as int],
            up_proj: v[self.up_proj as int],
            down_proj: v[self.down_proj as int],
        }
    }

    /// The weights exist at their full size.
    pub open spec fn fits(self, plan: Plan, c: TalkerConfig) -> bool {
        &&& holds(plan, self.input_norm, c.hidden_size as int)
        &&& holds(plan, self.q_proj, c.q_dim() * c.hidden_size)
        &&& holds(plan, self.k_proj, c.kv_dim() * c.hidden_size)
        &&& holds(plan, self.v_proj, c.kv_dim() * c.hidden_size)
        &&& self.q_bias matches Some(b) ==> holds(plan, b, c.q_dim())
        &&& self.k_bias matches Some(b) ==> holds(plan, b, c.kv_dim())
        &&& self.v_bias matches Some(b) ==> holds(plan, b, c.kv_dim())
        &&& self.q_norm matches Some(b) ==> holds(plan, b, c.head_dim as int)
        &&& self.k_norm matches Some(b) ==> holds(plan, b, c.head_dim as int)
        &&& holds(plan, self.o_proj, c.hidden_size * c.q_dim())
        &&& holds(plan, self.post_attention_norm, c.hidden_size as int)
        &&& holds(plan, self.gate_proj, c.intermediate_size * c.hidden_size)
        &&& holds(plan, self.up_proj, c.intermediate_size * c.hidden_size)
        &&& holds(plan, self.down_proj, c.hidden_size * c.intermediate_size)
    }

    /// None of the weights is one of the `n` buffers from `first`.
    pub open spec fn apart(self, first: usize, n: int) -> bool {
        &&& outside(self.input_norm, first, n)
        &&& outside(self.q_proj, first, n)
        &&& outside(self.k_proj, first, n)
        &&& outside(self.v_proj, first, n)
        &&& self.q_bias matches Some(b) ==> outside(b, first, n)
        &&& self.k_bias matches Some(b) ==> outside(b, first, n)
        &&& self.v_bias matches Some(b) ==> outside(b, first, n)
        &&& self.q_norm matches Some(b) ==> outside(b, first, n)
        &&& self.k_norm matches Some(b) ==> outside(b, first, n)
        &&& outside(self.o_proj, first, n)
        &&& outside(self.post_attention_norm, first, n)
        &&& outside(self.gate_proj, first, n)
        &&& outside(self.up_proj, first, n)
        &&& outside(self.down_proj, first, n)
    }
}

/// Whether `rows` tokens of the model can be counted in 32 bits throughout.
pub open spec fn countable<T: QwenDType>(c: TalkerConfig, rows: int) -> bool {
    &&& c.hidden_size <= u32::MAX
    &&& c.num_attention_heads <= u32::MAX
    &&& c.num_key_value_heads <= u32::MAX
    &&& c.head_dim <= u32::MAX
    &&& c.q_dim() <= u32::MAX
    &&& c.kv_dim() <= u32::MAX
    &&& c.intermediate_size <= u32::MAX
    &&& rows * c.hidden_size <= u32::MAX
    &&& rows * c.num_attention_heads <= u32::MAX
    &&& rows * c.num_key_value_heads <= u32::MAX
    &&& rows * c.kv_dim() <= u32::MAX
    &&& rows * c.intermediate_size <= u32::MAX
    &&& !T::is_f16() ==> rows * c.q_dim() <= u32::MAX
}

/// Why a layer cannot take `seq_len` more tokens, if it cannot.
pub open spec fn step_fault<T: QwenDType>(
    hidden_len: usize,
    seq_len: usize,
    c: TalkerConfig,
    cache: TalkerLayerKvCache,
    scratch: TalkerLayerScratch<T>,
) -> Option<Seq<char>> {
    if seq_len == 0 {
        Some("sequence length must be non-zero"@)
    } else if hidden_len < seq_len * c.hidden_size {
        Some("device hidden state is too small"@)
    } else if scratch.max_tokens < seq_len {
        Some(
            "scratch capacity "@ + decimal(scratch.max_tokens as nat) + " is smaller than "@
                + decimal(seq_len as nat),
        )
    } else if cache.kv_dim != c.kv_dim() {
        Some("KV cache geometry does not match the model"@)
    } else if cache.position + seq_len > cache.max_seq_len {
        Some(capacity_fault(cache, seq_len))
    } else if seq_len > u32::MAX {
        Some("sequence length exceeds CUDA limits"@)
    } else if cache.position > u32::MAX {
        Some("KV position exceeds CUDA limits"@)
    } else if cache.position + seq_len > u32::MAX {
        Some("KV length exceeds CUDA limits"@)
    } else {
        None
    }
}

/// The complaint of a cache without room for `seq_len` more tokens.
pub open spec fn capacity_fault(cache: TalkerLayerKvCache, seq_len: usize) -> Seq<char> {
    "KV cache capacity "@ + decimal(cache.max_seq_len as nat) + " exceeded by position "@ + decimal(
        cache.position as nat,
    ) + " + "@ + decimal(seq_len as nat)
}

/// The layer, the stream `hidden`, the cache and the scratch buffers exist at
/// their sizes and do not overlap.
pub open spec fn laid_out<T: QwenDType>(
    plan: Plan,
    layer: TalkerDecoderLayer<T>,
    hidden: usize,
    c: TalkerConfig,
    cache: TalkerLayerKvCache,
    scratch: TalkerLayerScratch<T>,
) -> bool {
    &&& hidden < plan.values().len()
    &&& layer.fits(plan, c)
    &&& cache.fits(plan)
    &&& scratch.fits(plan, c)
    &&& layer.apart(hidden, 1)
    &&& layer.apart(cache.k, 1)
    &&& layer.apart(cache.v, 1)
    &&& layer.apart(scratch.norm, 14)
    &&& outside(hidden, scratch.norm, 14)
    &&& outside(cache.k, scratch.norm, 14)
    &&& outside(cache.v, scratch.norm, 14)
    &&& hidden != cache.k
    &&& hidden != cache.v
}

/// `rows` tokens fit the scratch buffers, the stream and the cache.
pub open spec fn roomy<T: QwenDType>(
    plan: Plan,
    hidden: usize,
    c: TalkerConfig,
    cache: TalkerLayerKvCache,
    scratch: TalkerLayerScratch<T>,
    rows: u32,
) -> bool {
    &&& 0 < rows <= scratch.max_tokens
    &&& rows * c.hidden_size <= plan.sizes()[hidden as int]
    &&& cache.kv_dim == c.kv_dim()
    &&& cache.position + rows <= cache.max_seq_len
    &&& cache.position + rows <= u32::MAX
    &&& countable::<T>(c, rows as int)
}

/// Everything but the buffers from `first` to `last` and `other` is as before.
pub open spec fn kept(before: Plan, after: Plan, first: usize, last: int, other: Set<int>) -> bool {
    &&& after.sizes() == before.sizes()
    &&& after.values().len() == before.values().len()
    &&& forall|i: int|
        0 <= i < before.values().len() && !(first <= i < last) && !other.contains(i)
            ==> #[trigger] after.values()[i] == before.values()[i]
}

/// `a` rows of width `b` fit where `n` rows do.
pub proof fn lemma_rows(a: int, n: int, b: int)
    requires
        0 <= a <= n,
        0 <= b,
    ensures
        0 <= a * b <= n * b,
{
    assert(0 <= a * b <= n * b) by (nonlinear_arith)
        requires
            0 <= a <= n,
            0 <= b,
    ;
}

impl<T: QwenDType> TalkerDecoderLayer<T> {
    /// `out = weight * x` for each of `rows` rows.
    fn project(plan: &mut Plan, x: usize, weight: usize, out: usize, rows: u32, n: u32, k: u32)
        requires
            old(plan).wf(),
            rows > 0,
            holds(*old(plan), x, rows * k),
            holds(*old(plan), weight, n * k),
            holds(*old(plan), out, rows * n),
        ensures
            final(plan).wf(),
            final(plan).sizes() == old(plan).sizes(),
            final(plan).values() == old(plan).values().update(
                out as int,
                projected::<T>(
                    old(plan).values()[x as int],
                    old(plan).values()[weight as int],
                    rows,
                    n,
                    k,
                ),
            ),
    {
        if rows == 1 {
            T::gemv(plan, x, weight, out, n, k);
        } else {
            T::matmul(plan, x, weight, out, rows, n, k);
        }
    }

    /// Adds the bias to every row, if there is one.
    fn add_bias(plan: &mut Plan, x: usize, bias: Option<usize>, rows: u32, dim: u32)
        requires
            old(plan).wf(),
            holds(*old(plan), x, rows * dim),
            bias matches Some(b) ==> holds(*old(plan), b, dim as int),
        ensures
            final(plan).wf(),
            final(plan).sizes() == old(plan).sizes(),
            final(plan).values() == old(plan).values().update(
                x as int,
                biased::<T>(
                    old(plan).values()[x as int],
                    optional(old(plan).values(), bias),
                    rows,
                    dim,
                ),
            ),
    {
        if let Some(b) = bias {
            T::add_bias(plan, x, b, rows, dim);
        } else {
            assert(plan.values().update(x as int, plan.values()[x as int]) =~= plan.values());
        }
    }

    /// Brings rows of the precision `T` into half precision.
    fn halve(plan: &mut Plan, native: usize, half: usize, rows: u32, dim: u32)
        requires
            old(plan).wf(),
            holds(*old(plan), native, rows * dim),
            holds(*old(plan), half, rows * dim),
            T::is_f16() ==> native == half,
            !T::is_f16() ==> rows * dim <= u32::MAX,
        ensures
            final(plan).wf(),
            final(plan).sizes() == old(plan).sizes(),
            final(plan).values() == old(plan).values().update(
                half as int,
                halved::<T>(old(plan).values()[native as int], (rows * dim) as u32),
            ),
    {
        if T::stored_as_f16() {
            assert(plan.values().update(half as int, plan.values()[half as int]) =~= plan.values());
        } else {
            let ghost x = plan.values()[native as int];
            proof {
                T::law_conversions_overwrite(x, plan.values()[half as int], x, (rows * dim) as u32);
            }
            T::to_f16(plan, native, half, rows * dim);
        }
    }

    /// Brings rows in half precision into the precision `T`; the result names
    /// the buffer that they are in.
    fn restore(plan: &mut Plan, half: usize, native: usize, rows: u32, dim: u32) -> (rows_in: usize)
        requires
            old(plan).wf(),
            holds(*old(plan), native, rows * dim),
            holds(*old(plan), half, rows * dim),
            !T::is_f16() ==> rows * dim <= u32::MAX,
        ensures
            final(plan).wf(),
            final(plan).sizes() == old(plan).sizes(),
            rows_in == (if T::is_f16() { half } else { native }),
            final(plan).values() == old(plan).values().update(
                rows_in as int,
                restored::<T>(old(plan).values()[half as int], (rows * dim) as u32),
            ),
    {
        if T::stored_as_f16() {
            assert(plan.values().update(half as int, plan.values()[half as int]) =~= plan.values());
            half
        } else {
            let ghost x = plan.values()[half as int];
            proof {
                T::law_conversions_overwrite(x, plan.values()[native as int], x, (rows * dim) as u32);
            }
            T::from_f16(plan, half, native, rows * dim);
            native
        }
    }

    /// Normalises every row in place, if there is a scale.
    fn norm_heads(
        plan: &mut Plan,
        x: usize,
        weight: Option<usize>,
        rows: u32,
        dim: u32,
        eps: Scalar,
    )
        requires
            old(plan).wf(),
            holds(*old(plan), x, rows * dim),
            weight matches Some(b) ==> holds(*old(plan), b, dim as int),
        ensures
            final(plan).wf(),
            final(plan).sizes() == old(plan).sizes(),
            final(plan).values() == old(plan).values().update(
                x as int,
                head_normed(
                    old(plan).values()[x as int],
                    optional(old(plan).values(), weight),
                    rows,
                    dim,
                    eps,
                ),
            ),
    {
        if let Some(w) = weight {
            plan.rms_norm(x, w, x, rows, dim, eps);
        } else {
            assert(plan.values().update(x as int, plan.values()[x as int]) =~= plan.values());
        }
    }

    /// Computes queries, keys and values of `rows` tokens into the scratch
    /// buffers.
    fn attention_inputs(
        &self,
        plan: &mut Plan,
        hidden: usize,
        config: &TalkerConfig,
        cache: &TalkerLayerKvCache,
        scratch: &TalkerLayerScratch<T>,
        rows: u32,
    )
        requires
            old(plan).wf(),
            laid_out(*old(plan), *self, hidden, *config, *cache, *scratch),
            roomy(*old(plan), hidden, *config, *cache, *scratch, rows),
        ensures
            final(plan).wf(),
            kept(*old(plan), *final(plan), scratch.norm, scratch.norm + 7, set![]),
            ({
                let w = self.values(*old(plan));
                let normed = T::rms_norm_f32in_value(
                    old(plan).values()[hidden as int],
                    w.input_norm,
                    rows,
                    config.hidden_size as u32,
                    Scalar::Double(config.rms_norm_eps),
                );
                &&& final(plan).values()[scratch.q as int] == queries::<T>(
                    w,
                    normed,
                    *config,
                    rows,
                    cache.position,
                )
                &&& final(plan).values()[scratch.k as int] == keys::<T>(
                    w,
                    normed,
                    *config,
                    rows,
                    cache.position,
                )
                &&& final(plan).values()[scratch.v as int] == attention_values::<T>(
                    w,
                    normed,
                    *config,
                    rows,
                )
            }),
    {
        let hidden_dim: usize = config.hidden_size;
        let q_dim: usize = config.num_attention_heads * config.head_dim;
        let kv_dim: usize = config.num_key_value_heads * config.head_dim;
        let heads: u32 = config.num_attention_heads as u32;
        let kv_heads: u32 = config.num_key_value_heads as u32;
        let head_dim: u32 = config.head_dim as u32;
        let position: u32 = cache.position as u32;
        let eps = Scalar::Double(config.rms_norm_eps);
        let theta = Scalar::Double(config.rope_theta);
        proof {
            let r = rows as int;
            let t = scratch.max_tokens as int;
            lemma_rows(r, t, hidden_dim as int);
            lemma_rows(r, t, q_dim as int);
            lemma_rows(r, t, kv_dim as int);
            assert(r * heads * head_dim == r * q_dim) by (nonlinear_arith)
                requires
                    q_dim == heads * head_dim,
            ;
            assert(r * kv_heads * head_dim == r * kv_dim) by (nonlinear_arith)
                requires
                    kv_dim == kv_heads * head_dim,
            ;
        }
        T::rms_norm_f32in(
            plan,
            hidden,
            self.input_norm,
            scratch.norm,
            rows,
            hidden_dim as u32,
            eps,
        );
        let (q, k, v): (usize, usize, usize) = if T::stored_as_f16() {
            (scratch.q, scratch.k, scratch.v)
        } else {
            (scratch.q_native, scratch.k_native, scratch.v_native)
        };
        Self::project(plan, scratch.norm, self.q_proj, q, rows, q_dim as u32, hidden_dim as u32);
        Self::project(plan, scratch.norm, self.k_proj, k, rows, kv_dim as u32, hidden_dim as u32);
        Self::project(plan, scratch.norm, self.v_proj, v, rows, kv_dim as u32, hidden_dim as u32);
        Self::add_bias(plan, q, self.q_bias, rows, q_dim as u32);
        Self::add_bias(plan, k, self.k_bias, rows, kv_dim as u32);
        Self::add_bias(plan, v, self.v_bias, rows, kv_dim as u32);
        Self::halve(plan, q, scratch.q, rows, q_dim as u32);
        Self::halve(plan, k, scratch.k, rows, kv_dim as u32);
        Self::halve(plan, v, scratch.v, rows, kv_dim as u32);
        Self::norm_heads(plan, scratch.q, self.q_norm, rows * heads, head_dim, eps);
        Self::norm_heads(plan, scratch.k, self.k_norm, rows * kv_heads, head_dim, eps);
        plan.rope_neox(scratch.q, rows, heads, head_dim, position, theta);
        plan.rope_neox(scratch.k, rows, kv_heads, head_dim, position, theta);
    }

    /// Appends keys and values to the cache, attends, and adds the result to
    /// the stream.
    fn attend(
        &self,
        plan: &mut Plan,
        hidden: usize,
        config: &TalkerConfig,
        cache: &TalkerLayerKvCache,
        scratch: &TalkerLayerScratch<T>,
        rows: u32,
    )
        requires
            old(plan).wf(),
            laid_out(*old(plan), *self, hidden, *config, *cache, *scratch),
            roomy(*old(plan), hidden, *config, *cache, *scratch, rows),
        ensures
            final(plan).wf(),
            kept(
                *old(plan),
                *final(plan),
                scratch.norm,
                scratch.norm + 14,
                set![hidden as int, cache.k as int, cache.v as int],
            ),
            ({
                let before = LayerState {
                    hidden: old(plan).values()[hidden as int],
                    k: old(plan).values()[cache.k as int],
                    v: old(plan).values()[cache.v as int],
                };
                let after = attended::<T>(
                    self.values(*old(plan)),
                    before,
                    *config,
                    rows,
                    cache.position,
                );
                &&& final(plan).values()[hidden as int] == after.hidden
                &&& final(plan).values()[cache.k as int] == after.k
                &&& final(plan).values()[cache.v as int] == after.v
            }),
    {
        self.attention_inputs(plan, hidden, config, cache, scratch, rows);
        let hidden_dim: usize = config.hidden_size;
        let q_dim: usize = config.num_attention_heads * config.head_dim;
        let kv_dim: usize = config.num_key_value_heads * config.head_dim;
        let heads: u32 = config.num_attention_heads as u32;
        let kv_heads: u32 = config.num_key_value_heads as u32;
        let head_dim: u32 = config.head_dim as u32;
        let position: u32 = cache.position as u32;
        let total: u32 = position + rows;
        proof {
            let r = rows as int;
            let t = scratch.max_tokens as int;
            lemma_rows(r, t, hidden_dim as int);
            lemma_rows(r, t, q_dim as int);
            lemma_rows(r, t, kv_dim as int);
            lemma_rows(total as int, cache.max_seq_len as int, kv_dim as int);
            lemma_rows(position as int, total as int, kv_dim as int);
            assert(r * heads * head_dim == r * q_dim) by (nonlinear_arith)
                requires
                    q_dim == heads * head_dim,
            ;
            assert(total * kv_heads * head_dim == total * kv_dim) by (nonlinear_arith)
                requires
                    kv_dim == kv_heads * head_dim,
            ;
            assert(position * kv_dim + r * kv_dim == total * kv_dim) by (nonlinear_arith)
                requires
                    total == position + r,
            ;
        }
        let offset: usize = cache.position * kv_dim;
        plan.copy_f16_at(scratch.k, cache.k, rows * kv_dim as u32, offset);
        plan.copy_f16_at(scratch.v, cache.v, rows * kv_dim as u32, offset);
        plan.mha_fused(
            scratch.q,
            cache.k,
            cache.v,
            scratch.attention,
            head_dim,
            heads,
            kv_heads,
            rows,
            total,
            position,
        );
        let native: usize = Self::restore(
            plan,
            scratch.attention,
            scratch.attention_native,
            rows,
            q_dim as u32,
        );
        Self::project(
            plan,
            native,
            self.o_proj,
            scratch.attention_out,
            rows,
            hidden_dim as u32,
            q_dim as u32,
        );
        T::add_residual(plan, hidden, scratch.attention_out, rows * hidden_dim as u32);
    }

    /// Runs the feed-forward network and adds its result to the stream.
    fn feed_forward(
        &self,
        plan: &mut Plan,
        hidden: usize,
        config: &TalkerConfig,
        cache: &TalkerLayerKvCache,
        scratch: &TalkerLayerScratch<T>,
        rows: u32,
    )
        requires
            old(plan).wf(),
            laid_out(*old(plan), *self, hidden, *config, *cache, *scratch),
            roomy(*old(plan), hidden, *config, *cache, *scratch, rows),
        ensures
            final(plan).wf(),
            kept(*old(plan), *final(plan), scratch.norm, scratch.norm + 14, set![hidden as int]),
            final(plan).values()[hidden as int] == fed_forward::<T>(
                self.values(*old(plan)),
                old(plan).values()[hidden as int],
                *config,
                rows,
            ),
    {
        let hidden_dim: usize = config.hidden_size;
        let intermediate: usize = config.intermediate_size;
        proof {
            lemma_rows(rows as int, scratch.max_tokens as int, hidden_dim as int);
            lemma_rows(rows as int, scratch.max_tokens as int, intermediate as int);
        }
        T::rms_norm_f32in(
            plan,
            hidden,
            self.post_attention_norm,
            scratch.norm,
            rows,
            hidden_dim as u32,
            Scalar::Double(config.rms_norm_eps),
        );
        if rows == 1 {
            T::gemv_dual(
                plan,
                scratch.norm,
                self.gate_proj,
                self.up_proj,
                scratch.gate,
                scratch.up,
                intermediate as u32,
                hidden_dim as u32,
            );
        } else {
            T::matmul(
                plan,
                scratch.norm,
                self.gate_proj,
                scratch.gate,
                rows,
                intermediate as u32,
                hidden_dim as u32,
            );
            T::matmul(
                plan,
                scratch.norm,
                self.up_proj,
                scratch.up,
                rows,
                intermediate as u32,
                hidden_dim as u32,
            );
        }
        T::silu(plan, scratch.gate, scratch.up, scratch.activation, rows * intermediate as u32);
        Self::project(
            plan,
            scratch.activation,
            self.down_proj,
            scratch.mlp_out,
            rows,
            hidden_dim as u32,
            intermediate as u32,
        );
        T::add_residual(plan, hidden, scratch.mlp_out, rows * hidden_dim as u32);
    }

    /// Runs the layer on `seq_len` new tokens whose states are in `hidden`,
    /// appending their keys and values to the cache.
    pub fn forward_cached_device(
        &self,
        plan: &mut Plan,
        hidden: usize,
        seq_len: usize,
        config: &TalkerConfig,
        cache: &mut TalkerLayerKvCache,
        scratch: &TalkerLayerScratch<T>,
    ) -> (outcome: Result<(), String>)
        requires
            old(plan).wf(),
            config.q_dim() <= usize::MAX,
            config.kv_dim() <= usize::MAX,
            seq_len * config.hidden_size <= usize::MAX,
            old(cache).position + seq_len <= usize::MAX,
            laid_out(*old(plan), *self, hidden, *config, *old(cache), *scratch),
            step_fault(
                old(plan).sizes()[hidden as int],
                seq_len,
                *config,
                *old(cache),
                *scratch,
            ) is None ==> countable::<T>(*config, seq_len as int),
        ensures
            final(plan).wf(),
            match outcome {
                Err(message) => {
                    &&& step_fault(
                        old(plan).sizes()[hidden as int],
                        seq_len,
                        *config,
                        *old(cache),
                        *scratch,
                    ) == Some(message@)
                    &&& *final(plan) == *old(plan)
                    &&& *final(cache) == *old(cache)
                },
                Ok(_) => {
                    let before = LayerState {
                        hidden: old(plan).values()[hidden as int],
                        k: old(plan).values()[old(cache).k as int],
                        v: old(plan).values()[old(cache).v as int],
                    };
                    let after = decoder_layer::<T>(
                        self.values(*old(plan)),
                        before,
                        *config,
                        seq_len as u32,
                        old(cache).position,
                    );
                    &&& step_fault(
                        old(plan).sizes()[hidden as int],
                        seq_len,
                        *config,
                        *old(cache),
                        *scratch,
                    ) is None
                    &&& final(plan).values()[hidden as int] == after.hidden
                    &&& final(plan).values()[old(cache).k as int] == after.k
                    &&& final(plan).values()[old(cache).v as int] == after.v
                    &&& kept(
                        *old(plan),
                        *final(plan),
                        scratch.norm,
                        scratch.norm + 14,
                        set![hidden as int, old(cache).k as int, old(cache).v as int],
                    )
                    &&& *final(cache) == (TalkerLayerKvCache {
                        position: (old(cache).position + seq_len) as usize,
                        ..*old(cache)
                    })
                },
            },
    {
        let kv_dim: usize = config.num_key_value_heads * config.head_dim;
        if seq_len == 0 {
            return Err("sequence length must be non-zero".to_owned());
        }
        if plan.size(hidden) < seq_len * config.hidden_size {
            return Err("device hidden state is too small".to_owned());
        }
        if scratch.max_tokens < seq_len {
            return Err(
                "scratch capacity ".to_owned().concat(&to_decimal(scratch.max_tokens as u64)).concat(
                    " is smaller than ",
                ).concat(&to_decimal(seq_len as u64)),
            );
        }
        if cache.kv_dim != kv_dim {
            return Err("KV cache geometry does not match the model".to_owned());
        }
        if cache.position + seq_len > cache.max_seq_len {
            return Err(
                "KV cache capacity ".to_owned().concat(&to_decimal(cache.max_seq_len as u64)).concat(
                    " exceeded by position ",
                ).concat(&to_decimal(cache.position as u64)).concat(" + ").concat(
                    &to_decimal(seq_len as u64),
                ),
            );
        }
        if seq_len > u32::MAX as usize {
            return Err("sequence length exceeds CUDA limits".to_owned());
        }
        if cache.position > u32::MAX as usize {
            return Err("KV position exceeds CUDA limits".to_owned());
        }
        if cache.position + seq_len > u32::MAX as usize {
            return Err("KV length exceeds CUDA limits".to_owned());
        }
        let rows: u32 = seq_len as u32;
        proof {
            reveal(decoder_layer);
        }
        self.attend(plan, hidden, config, cache, scratch, rows);
        self.feed_forward(plan, hidden, config, cache, scratch, rows);
        cache.position = cache.position + seq_len;
        Ok(())
    }
}

/// Why a layer cannot take a host input of `hidden_len` values, if it cannot.
pub open spec fn cached_fault(
    hidden_len: usize,
    seq_len: usize,
    c: TalkerConfig,
    cache: TalkerLayerKvCache,
) -> Option<Seq<char>> {
    if seq_len == 0 {
        Some("sequence length must be non-zero"@)
    } else if cache.kv_dim != c.kv_dim() {
        Some("KV cache geometry does not match the model"@)
    } else if cache.position + seq_len > cache.max_seq_len {
        Some(capacity_fault(cache, seq_len))
    } else if hidden_len != seq_len * c.hidden_size {
        Some(
            "hidden input has "@ + decimal(hidden_len as nat) + " values, expected "@ + decimal(
                (seq_len * c.hidden_size) as nat,
            ),
        )
    } else if seq_len > u32::MAX {
        Some("sequence length exceeds CUDA limits"@)
    } else if cache.position > u32::MAX {
        Some("KV position exceeds CUDA limits"@)
    } else if cache.position + seq_len > u32::MAX {
        Some("KV length exceeds CUDA limits"@)
    } else {
        None
    }
}

/// Buffer counts of `tokens` tokens fit in memory.
pub open spec fn storable(c: TalkerConfig, tokens: usize) -> bool {
    &&& c.q_dim() <= usize::MAX
    &&& c.kv_dim() <= usize::MAX
    &&& tokens * c.hidden_size <= usize::MAX
    &&& tokens * c.q_dim() <= usize::MAX
    &&& tokens * c.kv_dim() <= usize::MAX
    &&& tokens * c.intermediate_size <= usize::MAX
}

impl<T: QwenDType> TalkerDecoderLayer<T> {
    /// Runs one or more consecutive tokens from the host and appends their
    /// keys and values. The states become a given buffer, which also holds
    /// the result.
    pub fn forward_cached(
        &self,
        plan: &mut Plan,
        hidden_len: usize,
        seq_len: usize,
        config: &TalkerConfig,
        cache: &mut TalkerLayerKvCache,
    ) -> (outcome: Result<usize, String>)
        requires
            old(plan).wf(),
            storable(*config, seq_len),
            old(cache).position + seq_len <= usize::MAX,
            self.fits(*old(plan), *config),
            old(cache).fits(*old(plan)),
            self.apart(old(cache).k, 1),
            self.apart(old(cache).v, 1),
            cached_fault(hidden_len, seq_len, *config, *old(cache)) is None ==> countable::<T>(
                *config,
                seq_len as int,
            ),
        ensures
            final(plan).wf(),
            match outcome {
                Err(message) => {
                    &&& cached_fault(hidden_len, seq_len, *config, *old(cache)) == Some(message@)
                    &&& *final(plan) == *old(plan)
                    &&& *final(cache) == *old(cache)
                },
                Ok(output) => {
                    let after = decoder_layer::<T>(
                        self.values(*old(plan)),
                        LayerState {
                            hidden: Term::Given(old(plan).steps().len()),
                            k: old(plan).values()[old(cache).k as int],
                            v: old(plan).values()[old(cache).v as int],
                        },
                        *config,
                        seq_len as u32,
                        old(cache).position,
                    );
                    &&& cached_fault(hidden_len, seq_len, *config, *old(cache)) is None
                    &&& output == old(plan).values().len()
                    &&& sized(*final(plan), output, seq_len * config.hidden_size)
                    &&& final(plan).values()[output as int] == after.hidden
                    &&& final(plan).values()[old(cache).k as int] == after.k
                    &&& final(plan).values()[old(cache).v as int] == after.v
                    &&& forall|i: int|
                        0 <= i < old(plan).values().len() && i != old(cache).k && i
                            != old(cache).v ==> #[trigger] final(plan).values()[i]
                            == old(plan).values()[i]
                    &&& forall|i: int|
                        0 <= i < old(plan).values().len() ==> #[trigger] final(plan).sizes()[i]
                            == old(plan).sizes()[i]
                    &&& *final(cache) == (TalkerLayerKvCache {
                        position: (old(cache).position + seq_len) as usize,
                        ..*old(cache)
                    })
                    &&& final(cache).fits(*final(plan))
                },
            },
    {
        let kv_dim: usize = config.num_key_value_heads * config.head_dim;
        if seq_len == 0 {
            return Err("sequence length must be non-zero".to_owned());
        }
        if cache.kv_dim != kv_dim {
            return Err("KV cache geometry does not match the model".to_owned());
        }
        if cache.position + seq_len > cache.max_seq_len {
            return Err(
                "KV cache capacity ".to_owned().concat(&to_decimal(cache.max_seq_len as u64)).concat(
                    " exceeded by position ",
                ).concat(&to_decimal(cache.position as u64)).concat(" + ").concat(
                    &to_decimal(seq_len as u64),
                ),
            );
        }
        if hidden_len != seq_len * config.hidden_size {
            return Err(
                "hidden input has ".to_owned().concat(&to_decimal(hidden_len as u64)).concat(
                    " values, expected ",
                ).concat(&to_decimal((seq_len * config.hidden_size) as u64)),
            );
        }
        if seq_len > u32::MAX as usize {
            return Err("sequence length exceeds CUDA limits".to_owned());
        }
        if cache.position > u32::MAX as usize {
            return Err("KV position exceeds CUDA limits".to_owned());
        }
        if cache.position + seq_len > u32::MAX as usize {
            return Err("KV length exceeds CUDA limits".to_owned());
        }
        let ghost start = *plan;
        let hidden: usize = plan.given(hidden_len);
        match TalkerLayerScratch::<T>::allocate(plan, seq_len, config) {
            Err(message) => Err(message),
            Ok(scratch) => {
                proof {
                    assert(extends(start, *plan));
                    assert(self.values(*plan) == self.values(start));
                    assert(laid_out(*plan, *self, hidden, *config, *cache, scratch));
                }
                match self.forward_cached_device(plan, hidden, seq_len, config, cache, &scratch) {
                    Err(message) => Err(message),
                    Ok(_) => Ok(hidden),
                }
            },
        }
    }

    /// Runs a causal prompt from position zero, with a cache of its own.
    pub fn forward_prefill(
        &self,
        plan: &mut Plan,
        hidden_len: usize,
        seq_len: usize,
        config: &TalkerConfig,
    ) -> (outcome: Result<usize, String>)
        requires
            old(plan).wf(),
            storable(*config, seq_len),
            self.fits(*old(plan), *config),
            hidden_len == seq_len * config.hidden_size && 0 < seq_len <= u32::MAX ==> countable::<T>(
                *config,
                seq_len as int,
            ),
        ensures
            final(plan).wf(),
            extends(*old(plan), *final(plan)),
            match outcome {
                Err(message) => {
                    if seq_len == 0 {
                        message@ == "KV cache capacity must be non-zero"@
                    } else if hidden_len != seq_len * config.hidden_size {
                        message@ == "hidden input has "@ + decimal(hidden_len as nat)
                            + " values, expected "@ + decimal(
                            (seq_len * config.hidden_size) as nat,
                        )
                    } else {
                        seq_len > u32::MAX && message@ == "sequence length exceeds CUDA limits"@
                    }
                },
                Ok(output) => {
                    let empty = Term::Zeros((seq_len * config.kv_dim()) as nat);
                    &&& 0 < seq_len <= u32::MAX
                    &&& hidden_len == seq_len * config.hidden_size
                    &&& sized(*final(plan), output, seq_len * config.hidden_size)
                    &&& final(plan).values()[output as int] == decoder_layer::<T>(
                        self.values(*old(plan)),
                        LayerState {
                            hidden: Term::Given((old(plan).steps().len() + 2) as nat),
                            k: empty,
                            v: empty,
                        },
                        *config,
                        seq_len as u32,
                        0,
                    ).hidden
                },
            },
    {
        let ghost start = *plan;
        match TalkerLayerKvCache::allocate(plan, seq_len, config) {
            Err(message) => Err(message),
            Ok(mut cache) => {
                proof {
                    assert(extends(start, *plan));
                    assert(self.values(*plan) == self.values(start));
                }
                self.forward_cached(plan, hidden_len, seq_len, config, &mut cache)
            },
        }
    }

    /// Runs a single token from position zero.
    pub fn forward_first_token(&self, plan: &mut Plan, hidden_len: usize, config: &TalkerConfig) -> (
    outcome: Result<usize, String>)
        requires
            old(plan).wf(),
            storable(*config, 1),
            self.fits(*old(plan), *config),
            hidden_len == config.hidden_size ==> countable::<T>(*config, 1),
        ensures
            final(plan).wf(),
            extends(*old(plan), *final(plan)),
            match outcome {
                Err(message) => {
                    &&& hidden_len != config.hidden_size
                    &&& message@ == "hidden input has "@ + decimal(hidden_len as nat)
                        + " values, expected "@ + decimal(config.hidden_size as nat)
                },
                Ok(output) => {
                    let empty = Term::Zeros(config.kv_dim() as nat);
                    &&& hidden_len == config.hidden_size
                    &&& sized(*final(plan), output, config.hidden_size as int)
                    &&& final(plan).values()[output as int] == decoder_layer::<T>(
                        self.values(*old(plan)),
                        LayerState {
                            hidden: Term::Given((old(plan).steps().len() + 2) as nat),
                            k: empty,
                            v: empty,
                        },
                        *config,
                        1,
                        0,
                    ).hidden
                },
            },
    {
        self.forward_prefill(plan, hidden_len, 1, config)
    }
}

impl<T: QwenDType> TalkerDecoderLayer<T> {
    /// Loaded weights exist at their full size.
    pub proof fn law_loaded_weights_fit(
        plan: Plan,
        base: int,
        prefix: Seq<char>,
        c: TalkerConfig,
        attention: Attention,
    )
        requires
            c.matrices_fit(),
            stores(plan, base, layer_tensors(prefix, c, attention)),
        ensures
            layer_at::<T>(base, attention).fits(plan, c),
            layer_tensors(prefix, c, attention).len() == 9 + extra_tensors(attention),
    {
        let tensors = layer_tensors(prefix, c, attention);
        let hidden = c.hidden_size;
        let q_dim = c.q_dim() as usize;
        let kv_dim = c.kv_dim() as usize;
        lemma_stored1(plan, base, tensors, 0, hidden);
        lemma_stored2(plan, base, tensors, 1, q_dim, hidden);
        lemma_stored2(plan, base, tensors, 2, kv_dim, hidden);
        lemma_stored2(plan, base, tensors, 3, kv_dim, hidden);
        match attention {
            Attention::QkNorm => {
                lemma_stored1(plan, base, tensors, 4, c.head_dim);
                lemma_stored1(plan, base, tensors, 5, c.head_dim);
            },
            Attention::Biased => {
                lemma_stored1(plan, base, tensors, 4, q_dim);
                lemma_stored1(plan, base, tensors, 5, kv_dim);
                lemma_stored1(plan, base, tensors, 6, kv_dim);
            },
            Attention::Plain => {},
        }
        let tail = 4 + extra_tensors(attention);
        lemma_stored2(plan, base, tensors, tail, hidden, q_dim);
        lemma_stored1(plan, base, tensors, tail + 1, hidden);
        lemma_stored2(plan, base, tensors, tail + 2, c.intermediate_size, hidden);
        lemma_stored2(plan, base, tensors, tail + 3, c.intermediate_size, hidden);
        lemma_stored2(plan, base, tensors, tail + 4, hidden, c.intermediate_size);
    }
}

} // verus!
