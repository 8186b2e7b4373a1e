//! The talker stack and its generation sessions.
use vstd::prelude::*;
use vstd::string::*;
use crate::device::{Plan, Scalar, Term, extends, holds, sized};
use crate::device::value::copy_f16_at;
use crate::qwen3_tts::config::TalkerConfig;
use crate::qwen3_tts::layer::{
    Attention, LayerState, LayerValues, TalkerDecoderLayer, TalkerLayerKvCache, TalkerLayerScratch, countable,
    decoder_layer, extra_tensors, laid_out, layer_at, layer_tensors, lemma_rows, optional, outside, step_fault,
};
use crate::qwen3_tts::precision::{F16, QwenDType};
use crate::text::{decimal, to_decimal};
use crate::weights::{
    Complaint, Fault, Loader, Role, Tensor, lemma_stored1, lemma_stores_split, stores,
};

verus! {

/// A stack of decoder layers of the precision `T` with an optional final
/// normalisation.
pub struct TalkerTransformer<T: QwenDType = F16> {
    pub layers: Vec<TalkerDecoderLayer<T>>,
    pub final_norm: Option<usize>,
    /// The factors of the rotary frequencies by their bits, where they are
    /// scaled.
    pub rope_factors: Option<Vec<u32>>,
    /// Whether queries and keys are rotated.
    pub apply_rope: bool,
    /// Whether a token attends to no later one.
    pub causal_attention: bool,
}

/// The caches and working buffers of one generation.
pub struct TalkerGenerationSession<T: QwenDType = F16> {
    pub caches: Vec<TalkerLayerKvCache>,
    pub scratch: TalkerLayerScratch<T>,
    pub max_seq_len: usize,
    /// The first of the session's buffers, which follow one another.
    pub first: usize,
}

/// The tensors of the first `n` layers whose names start with `prefix`.
pub open spec fn stack_tensors(
    prefix: Seq<char>,
    c: TalkerConfig,
    attention: Attention,
    n: nat,
) -> Seq<Tensor>
    decreases n,
{
    if n == 0 {
        seq![]
    } else {
        stack_tensors(prefix, c, attention, (n - 1) as nat) + layer_tensors(
            prefix + decimal((n - 1) as nat),
            c,
            attention,
        )
    }
}

/// How many tensors one layer has.
pub open spec fn per_layer(attention: Attention) -> int {
    9 + extra_tensors(attention)
}

/// Layers `0..n` were loaded one after another from buffer `base` on.
pub open spec fn layers_from<T: QwenDType>(
    layers: Seq<TalkerDecoderLayer<T>>,
    base: int,
    attention: Attention,
) -> bool {
    forall|i: int|
        0 <= i < layers.len() ==> #[trigger] layers[i] == layer_at::<T>(
            base + i * per_layer(attention),
            attention,
        )
}

/// Requires `count` layers whose names start with `prefix`.
pub fn load_layers<T: QwenDType>(
    loader: &mut Loader,
    prefix: &str,
    config: &TalkerConfig,
    attention: Attention,
) -> (layers: Vec<TalkerDecoderLayer<T>>)
    requires
        old(loader).wf(),
        config.matrices_fit(),
    ensures
        final(loader).wf(),
        layers@.len() == config.num_hidden_layers,
        layers_from(layers@, old(loader).tensors().len() as int, attention),
        final(loader).tensors() == old(loader).tensors() + stack_tensors(
            prefix@,
            *config,
            attention,
            config.num_hidden_layers as nat,
        ),
{
    let mut layers: Vec<TalkerDecoderLayer<T>> = Vec::new();
    assert(loader.tensors() + stack_tensors(prefix@, *config, attention, 0) =~= loader.tensors());
    for i in 0..config.num_hidden_layers
        invariant
            loader.wf(),
            config.matrices_fit(),
            layers@.len() == i,
            layers_from(layers@, old(loader).tensors().len() as int, attention),
            loader.tensors() == old(loader).tensors() + stack_tensors(
                prefix@,
                *config,
                attention,
                i as nat,
            ),
            loader.tensors().len() == old(loader).tensors().len() + i * per_layer(attention),
    {
        let name = prefix.to_owned().concat(&to_decimal(i as u64));
        let layer = TalkerDecoderLayer::<T>::load_architecture(loader, name.as_str(), config, attention);
        layers.push(layer);
        proof {
            assert((i + 1) * per_layer(attention) == i * per_layer(attention) + per_layer(
                attention,
            )) by (nonlinear_arith);
            assert(loader.tensors() =~= old(loader).tensors() + stack_tensors(
                prefix@,
                *config,
                attention,
                (i + 1) as nat,
            ));
        }
    }
    layers
}

/// The final normalisation `name`, labelled `label`.
pub open spec fn final_norm_tensor(name: Seq<char>, fault: Fault, c: TalkerConfig) -> Tensor {
    Tensor { name, shape: seq![c.hidden_size], fault, role: Role::Plain }
}

impl<T: QwenDType> TalkerTransformer<T> {
    /// The stack rotates queries and keys by unscaled frequencies and attends
    /// causally.
    pub open spec fn is_rotary(self) -> bool {
        self.rope_factors is None && self.apply_rope && self.causal_attention
    }

    /// A stack that rotates by unscaled frequencies and attends causally.
    pub(crate) fn rotary(layers: Vec<TalkerDecoderLayer<T>>, final_norm: Option<usize>) -> (model:
        Self)
        ensures
            model.layers == layers,
            model.final_norm == final_norm,
            model.is_rotary(),
    {
        TalkerTransformer {
            layers,
            final_norm,
            rope_factors: None,
            apply_rope: true,
            causal_attention: true,
        }
    }

    /// Requires the weights of the talker.
    pub fn load(loader: &mut Loader, config: &TalkerConfig) -> (model: Self)
        requires
            old(loader).wf(),
            config.matrices_fit(),
        ensures
            final(loader).wf(),
            model.is_rotary(),
            model.layers@.len() == config.num_hidden_layers,
            layers_from(
                model.layers@,
                old(loader).tensors().len() as int,
                Attention::QkNorm,
            ),
            model.final_norm == Some((final(loader).tensors().len() - 1) as usize),
            final(loader).tensors() == old(loader).tensors() + stack_tensors(
                "talker.model.layers."@,
                *config,
                Attention::QkNorm,
                config.num_hidden_layers as nat,
            ) + seq![
                final_norm_tensor(
                    "talker.model.norm.weight"@,
                    Fault::labelled("talker final norm"@),
                    *config,
                ),
            ],
    {
        let layers = load_layers(loader, "talker.model.layers.", config, Attention::QkNorm);
        let ghost mid = loader.tensors();
        let final_norm: usize = loader.vector(
            "talker.model.norm.weight".to_owned(),
            config.hidden_size,
            Complaint::labelled("talker final norm".to_owned()),
        );
        assert(loader.tensors() =~= mid + seq![
            final_norm_tensor(
                "talker.model.norm.weight"@,
                Fault::labelled("talker final norm"@),
                *config,
            ),
        ]);
        Self::rotary(layers, Some(final_norm))
    }

    /// Requires the weights of a Qwen2 stack rooted at `prefix`.
    pub fn load_qwen2(
        loader: &mut Loader,
        prefix: &str,
        config: &TalkerConfig,
        has_final_norm: bool,
    ) -> (model: Self)
        requires
            old(loader).wf(),
            config.matrices_fit(),
        ensures
            final(loader).wf(),
            model.is_rotary(),
            model.layers@.len() == config.num_hidden_layers,
            layers_from(
                model.layers@,
                old(loader).tensors().len() as int,
                Attention::Biased,
            ),
            model.final_norm == (if has_final_norm {
                Some((final(loader).tensors().len() - 1) as usize)
            } else {
                None
            }),
            final(loader).tensors() == old(loader).tensors() + stack_tensors(
                prefix@ + ".layers."@,
                *config,
                Attention::Biased,
                config.num_hidden_layers as nat,
            ) + (if has_final_norm {
                seq![
                    final_norm_tensor(prefix@ + ".norm.weight"@, Fault::expected(), *config),
                ]
            } else {
                seq![]
            }),
    {
        let layer_prefix = prefix.to_owned().concat(".layers.");
        let layers = load_layers(loader, layer_prefix.as_str(), config, Attention::Biased);
        let ghost mid = loader.tensors();
        if has_final_norm {
            let final_norm: usize = loader.vector(
                prefix.to_owned().concat(".norm.weight"),
                config.hidden_size,
                Complaint::expected(),
            );
            assert(loader.tensors() =~= mid + seq![
                final_norm_tensor(prefix@ + ".norm.weight"@, Fault::expected(), *config),
            ]);
            Self::rotary(layers, Some(final_norm))
        } else {
            assert(mid + seq![] =~= mid);
            Self::rotary(layers, None)
        }
    }

    /// Requires the weights of a MiniCPM4 stack rooted at `prefix`, whose
    /// projections have neither biases nor head normalisation. `rope_factors`
    /// are the bits of the factors of the rotary frequencies, if these are
    /// scaled. The stack keeps them; only one that rotates by unscaled
    /// frequencies and attends causally can be run.
    pub fn load_minicpm(
        loader: &mut Loader,
        prefix: &str,
        config: &TalkerConfig,
        rope_factors: Option<Vec<u32>>,
        apply_rope: bool,
        causal_attention: bool,
    ) -> (outcome: Result<Self, String>)
        requires
            old(loader).wf(),
            config.matrices_fit(),
        ensures
            final(loader).wf(),
            match outcome {
                Err(message) => {
                    &&& rope_factors matches Some(factors) && factors@.len() != config.head_dim / 2
                        && message@ == "MiniCPM LongRoPE has "@ + decimal(factors@.len()) + " factors, expected "@
                        + decimal((config.head_dim / 2) as nat)
                    &&& *final(loader) == *old(loader)
                },
                Ok(model) => {
                    &&& rope_factors matches Some(factors) ==> factors@.len() == config.head_dim / 2
                    &&& model.rope_factors == rope_factors
                    &&& model.apply_rope == apply_rope
                    &&& model.causal_attention == causal_attention
                    &&& model.layers@.len() == config.num_hidden_layers
                    &&& layers_from(
                        model.layers@,
                        old(loader).tensors().len() as int,
                        Attention::Plain,
                    )
                    &&& model.final_norm == Some((final(loader).tensors().len() - 1) as usize)
                    &&& final(loader).tensors() == old(loader).tensors() + stack_tensors(
                        prefix@ + ".layers."@,
                        *config,
                        Attention::Plain,
                        config.num_hidden_layers as nat,
                    ) + seq![
                        final_norm_tensor(prefix@ + ".norm.weight"@, Fault::expected(), *config),
                    ]
                },
            },
    {
        if let Some(factors) = &rope_factors {
            let n: usize = factors.len();
            if n != config.head_dim / 2 {
                return Err(
                    "MiniCPM LongRoPE has ".to_owned().concat(&to_decimal(n as u64)).concat(
                        " factors, expected ",
                    ).concat(&to_decimal((config.head_dim / 2) as u64)),
                );
            }
        }
        let layer_prefix = prefix.to_owned().concat(".layers.");
        let layers = load_layers(loader, layer_prefix.as_str(), config, Attention::Plain);
        let ghost mid = loader.tensors();
        let final_norm: usize = loader.vector(
            prefix.to_owned().concat(".norm.weight"),
            config.hidden_size,
            Complaint::expected(),
        );
        assert(loader.tensors() =~= mid + seq![
            final_norm_tensor(prefix@ + ".norm.weight"@, Fault::expected(), *config),
        ]);
        Ok(
            TalkerTransformer {
                layers,
                final_norm: Some(final_norm),
                rope_factors,
                apply_rope,
                causal_attention,
            },
        )
    }

    /// How many layers the stack has.
    pub fn layer_count(&self) -> (n: usize)
        ensures
            n == self.layers@.len(),
    {
        self.layers.len()
    }
}

impl<T: QwenDType> TalkerGenerationSession<T> {
    /// How many buffers the session has.
    pub open spec fn span(self) -> int {
        (2 * self.caches@.len() + 14) as int
    }

    /// How many tokens the session has seen.
    pub open spec fn seen(self) -> int {
        if self.caches@.len() == 0 {
            0
        } else {
            self.caches@[0].position as int
        }
    }

    /// The buffers exist at their sizes, one after another, and every layer
    /// has seen the same tokens.
    pub open spec fn fits(self, plan: Plan, c: TalkerConfig) -> bool {
        &&& self.first + self.span() <= plan.values().len()
        &&& self.scratch.norm == self.first + 2 * self.caches@.len()
        &&& self.scratch.fits(plan, c)
        &&& forall|i: int|
            0 <= i < self.caches@.len() ==> {
                let cache = #[trigger] self.caches@[i];
                &&& cache.k == self.first + 2 * i
                &&& cache.v == self.first + 2 * i + 1
                &&& cache.fits(plan)
                &&& cache.kv_dim == c.kv_dim()
                &&& cache.max_seq_len == self.max_seq_len
                &&& cache.position == self.seen()
            }
    }

    /// How many tokens the session has seen.
    pub fn position(&self) -> (n: usize)
        ensures
            n == self.seen(),
    {
        if self.caches.len() == 0 {
            0
        } else {
            self.caches[0].position()
        }
    }

    /// Forgets every token.
    pub fn reset(&mut self)
        ensures
            final(self).seen() == 0,
            final(self).scratch == old(self).scratch,
            final(self).max_seq_len == old(self).max_seq_len,
            final(self).first == old(self).first,
            final(self).caches@.len() == old(self).caches@.len(),
            forall|i: int|
                0 <= i < old(self).caches@.len() ==> #[trigger] final(self).caches@[i] == (
                TalkerLayerKvCache { position: 0, ..old(self).caches@[i] }),
    {
        let n: usize = self.caches.len();
        for i in 0..n
            invariant
                n == self.caches@.len(),
                n == old(self).caches@.len(),
                self.scratch == old(self).scratch,
                self.max_seq_len == old(self).max_seq_len,
                self.first == old(self).first,
                forall|j: int|
                    0 <= j < i ==> #[trigger] self.caches@[j] == (TalkerLayerKvCache {
                        position: 0,
                        ..old(self).caches@[j]
                    }),
                forall|j: int|
                    i <= j < n ==> #[trigger] self.caches@[j] == old(self).caches@[j],
        {
            let mut cache = self.caches[i];
            cache.reset();
            self.caches.set(i, cache);
        }
    }
}

/// Caches of `n` layers in which nothing has been stored.
pub open spec fn empty_caches(n: nat, elements: int) -> Seq<(Term, Term)> {
    Seq::new(n, |i: int| (Term::Zeros(elements as nat), Term::Zeros(elements as nat)))
}

impl<T: QwenDType> TalkerTransformer<T> {
    /// The weights exist at their full size.
    pub open spec fn fits(self, plan: Plan, c: TalkerConfig) -> bool {
        &&& forall|i: int| 0 <= i < self.layers@.len() ==> (#[trigger] self.layers@[i]).fits(plan, c)
        &&& self.final_norm matches Some(b) ==> holds(plan, b, c.hidden_size as int)
    }

    /// None of the weights is one of the `n` buffers from `first`.
    pub open spec fn apart(self, first: usize, n: int) -> bool {
        &&& forall|i: int| 0 <= i < self.layers@.len() ==> (#[trigger] self.layers@[i]).apart(first, n)
        &&& self.final_norm matches Some(b) ==> outside(b, first, n)
    }

    /// Allocates the caches and working buffers of a generation.
    pub fn start_session(
        &self,
        plan: &mut Plan,
        max_seq_len: usize,
        max_batch_tokens: usize,
        config: &TalkerConfig,
    ) -> (outcome: Result<TalkerGenerationSession<T>, String>)
        requires
            old(plan).wf(),
            config.q_dim() <= usize::MAX,
            config.kv_dim() <= usize::MAX,
            max_seq_len * config.kv_dim() <= usize::MAX,
            max_batch_tokens * config.hidden_size <= usize::MAX,
            max_batch_tokens * config.q_dim() <= usize::MAX,
            max_batch_tokens * config.kv_dim() <= usize::MAX,
            max_batch_tokens * config.intermediate_size <= usize::MAX,
        ensures
            final(plan).wf(),
            match outcome {
                Err(message) => {
                    &&& *final(plan) == *old(plan)
                    &&& max_seq_len == 0 ==> message@ == "maximum sequence length must be non-zero"@
                    &&& max_seq_len != 0 ==> max_batch_tokens == 0 && message@
                        == "maximum batch token count must be non-zero"@
                },
                Ok(session) => {
                    &&& max_seq_len > 0
                    &&& max_batch_tokens > 0
                    &&& session.first == old(plan).values().len()
                    &&& session.caches@.len() == self.layers@.len()
                    &&& session.seen() == 0
                    &&& session.max_seq_len == max_seq_len
                    &&& session.scratch.max_tokens == max_batch_tokens
                    &&& session.fits(*final(plan), *config)
                    &&& final(plan).values().len() == old(plan).values().len() + session.span()
                    &&& session.contents(*final(plan)) == empty_caches(
                        self.layers@.len(),
                        max_seq_len * config.kv_dim(),
                    )
                    &&& extends(*old(plan), *final(plan))
                },
            },
    {
        if max_seq_len == 0 {
            return Err("maximum sequence length must be non-zero".to_owned());
        }
        if max_batch_tokens == 0 {
            return Err("maximum batch token count must be non-zero".to_owned());
        }
        let n: usize = self.layers.len();
        let mut caches: Vec<TalkerLayerKvCache> = Vec::new();
        let ghost start = plan.values().len();
        for i in 0..n
            invariant
                plan.wf(),
                start == old(plan).values().len(),
                n == self.layers@.len(),
                config.kv_dim() <= usize::MAX,
                max_seq_len > 0,
                max_seq_len * config.kv_dim() <= usize::MAX,
                caches@.len() == i,
                plan.values().len() == start + 2 * i,
                extends(*old(plan), *plan),
                forall|j: int|
                    0 <= j < i ==> {
                        let cache = #[trigger] caches@[j];
                        &&& cache.k == start + 2 * j
                        &&& cache.v == start + 2 * j + 1
                        &&& cache.fits(*plan)
                        &&& cache.kv_dim == config.kv_dim()
                        &&& cache.max_seq_len == max_seq_len
                        &&& cache.position == 0
                        &&& plan.values()[cache.k as int] == Term::Zeros(
                            (max_seq_len * config.kv_dim()) as nat,
                        )
                        &&& plan.values()[cache.v as int] == Term::Zeros(
                            (max_seq_len * config.kv_dim()) as nat,
                        )
                    },
        {
            match TalkerLayerKvCache::allocate(plan, max_seq_len, config) {
                Ok(cache) => {
                    caches.push(cache);
                },
                Err(message) => {
                    return Err(message);
                },
            }
        }
        let ghost mid = *plan;
        match TalkerLayerScratch::<T>::allocate(plan, max_batch_tokens, config) {
            Ok(scratch) => {
                let first: usize = scratch.norm - 2 * n;
                let session = TalkerGenerationSession { caches, scratch, max_seq_len, first };
                assert(session.contents(*plan) =~= empty_caches(
                    self.layers@.len(),
                    max_seq_len * config.kv_dim(),
                ));
                Ok(session)
            },
            Err(message) => Err(message),
        }
    }
}

/// The stream after the first `n` layers, at position `pos`.
pub open spec fn after_layers<T: QwenDType>(
    weights: Seq<LayerValues>,
    caches: Seq<(Term, Term)>,
    hidden: Term,
    c: TalkerConfig,
    rows: u32,
    pos: usize,
    n: nat,
) -> Term
    decreases n, 0int,
{
    if n == 0 {
        hidden
    } else {
        layer_step::<T>(weights, caches, hidden, c, rows, pos, (n - 1) as nat).hidden
    }
}

/// What layer `n` makes of the stream and of its own cache.
pub open spec fn layer_step<T: QwenDType>(
    weights: Seq<LayerValues>,
    caches: Seq<(Term, Term)>,
    hidden: Term,
    c: TalkerConfig,
    rows: u32,
    pos: usize,
    n: nat,
) -> LayerState
    decreases n, 1int,
{
    decoder_layer::<T>(
        weights[n as int],
        LayerState {
            hidden: after_layers::<T>(weights, caches, hidden, c, rows, pos, n),
            k: caches[n as int].0,
            v: caches[n as int].1,
        },
        c,
        rows,
        pos,
    )
}

/// The stream after the stack: normalised where the stack has a final norm.
pub open spec fn stack_output<T: QwenDType>(
    weights: Seq<LayerValues>,
    final_norm: Option<Term>,
    caches: Seq<(Term, Term)>,
    hidden: Term,
    c: TalkerConfig,
    rows: u32,
    pos: usize,
) -> Term {
    let last = after_layers::<T>(weights, caches, hidden, c, rows, pos, weights.len());
    match final_norm {
        Some(weight) => T::rms_norm_f32in_value(
            last,
            weight,
            rows,
            c.hidden_size as u32,
            Scalar::Double(c.rms_norm_eps),
        ),
        None => last,
    }
}

impl<T: QwenDType> TalkerGenerationSession<T> {
    /// The keys and values each layer has cached.
    pub open spec fn contents(self, plan: Plan) -> Seq<(Term, Term)> {
        self.caches@.map_values(
            |cache: TalkerLayerKvCache|
                (plan.values()[cache.k as int], plan.values()[cache.v as int]),
        )
    }
}

impl<T: QwenDType> TalkerTransformer<T> {
    /// The weights of each layer.
    pub open spec fn weights(self, plan: Plan) -> Seq<LayerValues> {
        self.layers@.map_values(|layer: TalkerDecoderLayer<T>| layer.values(plan))
    }
}

/// The complaint of an input of the wrong length.
pub open spec fn input_fault(found: usize, expected: int) -> Seq<char> {
    "hidden input has "@ + decimal(found as nat) + " values, expected "@ + decimal(expected as nat)
}

/// The complaint of an input of the wrong length.
pub fn input_complaint(found: usize, expected: usize) -> (message: String)
    ensures
        message@ == input_fault(found, expected as int),
{
    "hidden input has ".to_owned().concat(&to_decimal(found as u64)).concat(
        " values, expected ",
    ).concat(&to_decimal(expected as u64))
}

/// Why a session cannot take `seq_len` more tokens, if it cannot.
pub open spec fn session_fault<T: QwenDType>(
    session: TalkerGenerationSession<T>,
    hidden_len: usize,
    seq_len: usize,
    c: TalkerConfig,
) -> Option<Seq<char>> {
    if seq_len == 0 {
        Some("sequence length must be non-zero"@)
    } else if seq_len > session.scratch.max_tokens {
        Some(
            "sequence has "@ + decimal(seq_len as nat) + " tokens, scratch holds "@ + decimal(
                session.scratch.max_tokens as nat,
            ),
        )
    } else if hidden_len != seq_len * c.hidden_size {
        Some(input_fault(hidden_len, seq_len * c.hidden_size))
    } else if session.seen() + seq_len > session.max_seq_len {
        Some(
            "session length "@ + decimal((session.seen() + seq_len) as nat) + " exceeds maximum "@
                + decimal(session.max_seq_len as nat),
        )
    } else if session.caches@.len() > 0 {
        step_fault(hidden_len, seq_len, c, session.caches@[0], session.scratch)
    } else {
        None
    }
}

/// A layer whose weights lie outside the session's buffers is laid out for
/// its cache, and its weights are what they were at the start.
proof fn lemma_layer_ready<T: QwenDType>(
    start: Plan,
    plan: Plan,
    layer: TalkerDecoderLayer<T>,
    hidden: usize,
    c: TalkerConfig,
    cache: TalkerLayerKvCache,
    scratch: TalkerLayerScratch<T>,
    first: usize,
    n: int,
    i: int,
)
    requires
        plan.sizes() == start.sizes(),
        plan.values().len() == start.values().len(),
        hidden < start.values().len(),
        0 <= i < n,
        layer.fits(start, c),
        cache.fits(start),
        scratch.fits(start, c),
        first + 2 * n + 14 <= start.values().len(),
        layer.apart(first, 2 * n + 14),
        layer.apart(hidden, 1),
        outside(hidden, first, 2 * n + 14),
        cache.k == first + 2 * i,
        cache.v == first + 2 * i + 1,
        scratch.norm == first + 2 * n,
        forall|j: int|
            0 <= j < start.values().len() && j != hidden && !(first <= j < first + 2 * n + 14)
                ==> #[trigger] plan.values()[j] == start.values()[j],
    ensures
        laid_out(plan, layer, hidden, c, cache, scratch),
        layer.values(plan) == layer.values(start),
{
}

impl<T: QwenDType> TalkerTransformer<T> {
    /// Runs every layer on `seq_len` tokens whose states are in `hidden`.
    fn run_layers(
        &self,
        plan: &mut Plan,
        session: &mut TalkerGenerationSession<T>,
        hidden: usize,
        seq_len: usize,
        config: &TalkerConfig,
    ) -> (outcome: Result<(), String>)
        requires
            old(plan).wf(),
            hidden < old(plan).values().len(),
            old(session).fits(*old(plan), *config),
            self.fits(*old(plan), *config),
            self.layers@.len() == old(session).caches@.len(),
            self.apart(old(session).first, old(session).span()),
            self.apart(hidden, 1),
            outside(hidden, old(session).first, old(session).span()),
            config.q_dim() <= usize::MAX,
            config.kv_dim() <= usize::MAX,
            session_fault(
                *old(session),
                old(plan).sizes()[hidden as int],
                seq_len,
                *config,
            ) is None,
            seq_len <= u32::MAX,
            countable::<T>(*config, seq_len as int),
        ensures
            outcome is Ok,
            final(plan).wf(),
            final(plan).sizes() == old(plan).sizes(),
            final(plan).values().len() == old(plan).values().len(),
            final(session).fits(*final(plan), *config),
            final(session).caches@.len() == old(session).caches@.len(),
            final(session).first == old(session).first,
            final(session).scratch == old(session).scratch,
            final(session).max_seq_len == old(session).max_seq_len,
            final(session).caches@.len() > 0 ==> final(session).seen() == old(session).seen()
                + seq_len,
            final(plan).values()[hidden as int] == after_layers::<T>(
                self.weights(*old(plan)),
                old(session).contents(*old(plan)),
                old(plan).values()[hidden as int],
                *config,
                seq_len as u32,
                old(session).seen() as usize,
                self.layers@.len(),
            ),
            forall|i: int|
                0 <= i < old(session).caches@.len() ==> {
                    let step = layer_step::<T>(
                        self.weights(*old(plan)),
                        old(session).contents(*old(plan)),
                        old(plan).values()[hidden as int],
                        *config,
                        seq_len as u32,
                        old(session).seen() as usize,
                        i as nat,
                    );
                    &&& final(plan).values()[(#[trigger] old(session).caches@[i]).k as int]
                        == step.k
                    &&& final(plan).values()[old(session).caches@[i].v as int] == step.v
                },
            forall|i: int|
                0 <= i < old(plan).values().len() && i != hidden && !(old(session).first <= i
                    < old(session).first + old(session).span())
                    ==> #[trigger] final(plan).values()[i] == old(plan).values()[i],
    {
        let n: usize = self.layers.len();
        let position: usize = session.position();
        let ghost start = *plan;
        let ghost caches = session.caches@;
        let ghost rows = seq_len as u32;
        let ghost entry = plan.values()[hidden as int];
        let ghost weights = self.weights(*plan);
        let ghost contents = session.contents(*plan);
        for i in 0..n
            invariant
                n == self.layers@.len(),
                n == caches.len(),
                caches == old(session).caches@,
                start == *old(plan),
                entry == start.values()[hidden as int],
                weights == self.weights(start),
                contents == old(session).contents(start),
                rows == seq_len,
                start.wf(),
                plan.wf(),
                plan.sizes() == start.sizes(),
                plan.values().len() == start.values().len(),
                hidden < start.values().len(),
                self.fits(start, *config),
                self.apart(session.first, session.span()),
                self.apart(hidden, 1),
                outside(hidden, session.first, session.span()),
                config.q_dim() <= usize::MAX,
                config.kv_dim() <= usize::MAX,
                countable::<T>(*config, seq_len as int),
                seq_len * config.hidden_size <= start.sizes()[hidden as int],
                0 < seq_len <= u32::MAX,
                seq_len <= session.scratch.max_tokens,
                position == old(session).seen(),
                position + seq_len <= session.max_seq_len,
                n > 0 ==> position + seq_len <= u32::MAX,
                session.caches@.len() == n,
                session.first == old(session).first,
                session.scratch == old(session).scratch,
                session.max_seq_len == old(session).max_seq_len,
                session.first + session.span() <= start.values().len(),
                session.scratch.norm == session.first + 2 * n,
                session.scratch.fits(start, *config),
                forall|j: int|
                    0 <= j < n ==> {
                        let cache = #[trigger] caches[j];
                        &&& cache.k == session.first + 2 * j
                        &&& cache.v == session.first + 2 * j + 1
                        &&& cache.fits(start)
                        &&& cache.kv_dim == config.kv_dim()
                        &&& cache.max_seq_len == session.max_seq_len
                        &&& cache.position == position
                    },
                forall|j: int|
                    0 <= j < i ==> #[trigger] session.caches@[j] == (TalkerLayerKvCache {
                        position: (position + seq_len) as usize,
                        ..caches[j]
                    }),
                forall|j: int| i <= j < n ==> #[trigger] session.caches@[j] == caches[j],
                plan.values()[hidden as int] == after_layers::<T>(
                    weights,
                    contents,
                    entry,
                    *config,
                    rows,
                    position,
                    i as nat,
                ),
                forall|j: int|
                    0 <= j < i ==> {
                        let step = layer_step::<T>(
                            weights,
                            contents,
                            entry,
                            *config,
                            rows,
                            position,
                            j as nat,
                        );
                        &&& plan.values()[(#[trigger] caches[j]).k as int] == step.k
                        &&& plan.values()[caches[j].v as int] == step.v
                    },
                forall|j: int|
                    0 <= j < start.values().len() && j != hidden && !(session.first <= j
                        < session.first + 2 * i) && !(session.scratch.norm <= j
                        < session.scratch.norm + 14) ==> #[trigger] plan.values()[j]
                        == start.values()[j],
        {
            let mut cache = session.caches[i];
            if cache.position() != position {
                return Err("talker layer caches are out of sync".to_owned());
            }
            let layer = &self.layers[i];
            proof {
                assert(caches[i as int] == cache);
                assert(*layer == self.layers@[i as int]);
                assert(layer.fits(start, *config));
                assert(layer.apart(session.first, session.span()));
                assert(layer.apart(hidden, 1));
                assert(plan.values()[cache.k as int] == start.values()[cache.k as int]);
                assert(plan.values()[cache.v as int] == start.values()[cache.v as int]);
                lemma_layer_ready(
                    start,
                    *plan,
                    *layer,
                    hidden,
                    *config,
                    cache,
                    session.scratch,
                    session.first,
                    n as int,
                    i as int,
                );
            }
            let ghost before = *plan;
            match layer.forward_cached_device(plan, hidden, seq_len, config, &mut cache, &session.scratch) {
                Ok(_) => {},
                Err(message) => {
                    return Err(message);
                },
            }
            session.caches.set(i, cache);
            proof {
                assert forall|j: int| 0 <= j < i implies {
                    let step = layer_step::<T>(
                        weights,
                        contents,
                        entry,
                        *config,
                        rows,
                        position,
                        j as nat,
                    );
                    &&& plan.values()[(#[trigger] caches[j]).k as int] == step.k
                    &&& plan.values()[caches[j].v as int] == step.v
                } by {
                    assert(plan.values()[caches[j].k as int] == before.values()[caches[j].k as int]);
                    assert(plan.values()[caches[j].v as int] == before.values()[caches[j].v as int]);
                }
            }
        }
        Ok(())
    }
}

/// Why a fresh stack cannot run a prompt of `seq_len` tokens, if it cannot.
pub open spec fn prompt_fault(
    hidden_len: usize,
    seq_len: usize,
    max_seq_len: usize,
    c: TalkerConfig,
    layers: int,
) -> Option<Seq<char>> {
    if seq_len == 0 {
        Some("sequence length must be non-zero"@)
    } else if hidden_len != seq_len * c.hidden_size {
        Some(input_fault(hidden_len, seq_len * c.hidden_size))
    } else if max_seq_len < seq_len {
        Some(
            "maximum sequence length "@ + decimal(max_seq_len as nat)
                + " is below prompt length "@ + decimal(seq_len as nat),
        )
    } else if layers > 0 && seq_len > u32::MAX {
        Some("sequence length exceeds CUDA limits"@)
    } else {
        None
    }
}

impl<T: QwenDType> TalkerTransformer<T> {
    /// Normalises the stream where the stack has a final norm, and says which
    /// buffer holds the result.
    fn finish(
        &self,
        plan: &mut Plan,
        hidden: usize,
        scratch: &TalkerLayerScratch<T>,
        seq_len: usize,
        config: &TalkerConfig,
    ) -> (output: usize)
        requires
            old(plan).wf(),
            holds(*old(plan), hidden, seq_len * config.hidden_size),
            holds(*old(plan), scratch.norm, seq_len * config.hidden_size),
            self.final_norm matches Some(b) ==> holds(*old(plan), b, config.hidden_size as int),
            seq_len <= u32::MAX,
            config.hidden_size <= u32::MAX,
        ensures
            final(plan).wf(),
            final(plan).sizes() == old(plan).sizes(),
            final(plan).values().len() == old(plan).values().len(),
            output == (if self.final_norm is Some {
                scratch.norm
            } else {
                hidden
            }),
            output < final(plan).values().len(),
            final(plan).values()[output as int] == (match self.final_norm {
                Some(weight) => T::rms_norm_f32in_value(
                    old(plan).values()[hidden as int],
                    old(plan).values()[weight as int],
                    seq_len as u32,
                    config.hidden_size as u32,
                    Scalar::Double(config.rms_norm_eps),
                ),
                None => old(plan).values()[hidden as int],
            }),
            forall|i: int|
                0 <= i < old(plan).values().len() && i != scratch.norm
                    ==> #[trigger] final(plan).values()[i] == old(plan).values()[i],
    {
        if let Some(weight) = self.final_norm {
            T::rms_norm_f32in(
                plan,
                hidden,
                weight,
                scratch.norm,
                seq_len as u32,
                config.hidden_size as u32,
                Scalar::Double(config.rms_norm_eps),
            );
            scratch.norm
        } else {
            hidden
        }
    }

    /// Appends `seq_len` prepared embeddings to a session. The embeddings
    /// become a given buffer of `hidden_len` elements; the result names the
    /// buffer whose first `seq_len` rows are the output.
    pub fn forward_session(
        &self,
        plan: &mut Plan,
        session: &mut TalkerGenerationSession<T>,
        hidden_len: usize,
        seq_len: usize,
        config: &TalkerConfig,
    ) -> (outcome: Result<usize, String>)
        requires
            old(plan).wf(),
            self.is_rotary(),
            old(session).fits(*old(plan), *config),
            self.fits(*old(plan), *config),
            self.layers@.len() == old(session).caches@.len(),
            self.apart(old(session).first, old(session).span()),
            config.q_dim() <= usize::MAX,
            config.kv_dim() <= usize::MAX,
            seq_len * config.hidden_size <= usize::MAX,
            old(session).seen() + seq_len <= usize::MAX,
            session_fault(*old(session), hidden_len, seq_len, *config) is None ==> seq_len
                <= u32::MAX && countable::<T>(*config, seq_len as int),
        ensures
            final(plan).wf(),
            match outcome {
                Err(message) => {
                    &&& session_fault(*old(session), hidden_len, seq_len, *config) == Some(message@)
                    &&& *final(plan) == *old(plan)
                    &&& *final(session) == *old(session)
                },
                Ok(output) => {
                    let hidden = Term::Given(old(plan).steps().len());
                    &&& session_fault(*old(session), hidden_len, seq_len, *config) is None
                    &&& final(session).fits(*final(plan), *config)
                    &&& final(session).first == old(session).first
                    &&& final(session).scratch == old(session).scratch
                    &&& final(session).max_seq_len == old(session).max_seq_len
                    &&& final(session).caches@.len() == old(session).caches@.len()
                    &&& old(session).caches@.len() > 0 ==> final(session).seen()
                        == old(session).seen() + seq_len
                    &&& holds(*final(plan), output, seq_len * config.hidden_size)
                    &&& final(plan).values()[output as int] == stack_output::<T>(
                        self.weights(*old(plan)),
                        optional(old(plan).values(), self.final_norm),
                        old(session).contents(*old(plan)),
                        hidden,
                        *config,
                        seq_len as u32,
                        old(session).seen() as usize,
                    )
                    &&& forall|i: int|
                        0 <= i < old(session).caches@.len() ==> {
                            let step = layer_step::<T>(
                                self.weights(*old(plan)),
                                old(session).contents(*old(plan)),
                                hidden,
                                *config,
                                seq_len as u32,
                                old(session).seen() as usize,
                                i as nat,
                            );
                            &&& final(plan).values()[(#[trigger] old(session).caches@[i]).k as int]
                                == step.k
                            &&& final(plan).values()[old(session).caches@[i].v as int] == step.v
                        }
                    &&& forall|i: int|
                        0 <= i < old(plan).values().len() && !(old(session).first <= i
                            < old(session).first + old(session).span())
                            ==> #[trigger] final(plan).values()[i] == old(plan).values()[i]
                    &&& forall|i: int|
                        0 <= i < old(plan).values().len() ==> #[trigger] final(plan).sizes()[i]
                            == old(plan).sizes()[i]
                },
            },
    {
        if seq_len == 0 {
            return Err("sequence length must be non-zero".to_owned());
        }
        if seq_len > session.scratch.max_tokens {
            return Err(
                "sequence has ".to_owned().concat(&to_decimal(seq_len as u64)).concat(
                    " tokens, scratch holds ",
                ).concat(&to_decimal(session.scratch.max_tokens as u64)),
            );
        }
        if hidden_len != seq_len * config.hidden_size {
            return Err(input_complaint(hidden_len, seq_len * config.hidden_size));
        }
        let position: usize = session.position();
        if position + seq_len > session.max_seq_len {
            return Err(
                "session length ".to_owned().concat(&to_decimal((position + seq_len) as u64)).concat(
                    " exceeds maximum ",
                ).concat(&to_decimal(session.max_seq_len as u64)),
            );
        }
        if session.caches.len() > 0 {
            if seq_len > u32::MAX as usize {
                return Err("sequence length exceeds CUDA limits".to_owned());
            }
            if position > u32::MAX as usize {
                return Err("KV position exceeds CUDA limits".to_owned());
            }
            if position + seq_len > u32::MAX as usize {
                return Err("KV length exceeds CUDA limits".to_owned());
            }
        }
        let ghost start = *plan;
        let hidden: usize = plan.given(hidden_len);
        let ghost ready = *plan;
        proof {
            lemma_extended(start, ready, *self, *session, *config);
        }
        let outcome = self.run_layers(plan, session, hidden, seq_len, config);
        match outcome {
            Ok(_) => {},
            Err(message) => {
                return Err(message);
            },
        }
        proof {
            assert(session.scratch.fits(*plan, *config));
            lemma_rows(
                seq_len as int,
                session.scratch.max_tokens as int,
                config.hidden_size as int,
            );
        }
        let output: usize = self.finish(plan, hidden, &session.scratch, seq_len, config);
        Ok(output)
    }
}

impl<T: QwenDType> TalkerTransformer<T> {
    /// Runs a prompt of prepared embeddings through the whole stack, with
    /// fresh caches for `max_seq_len` tokens. The embeddings become a given
    /// buffer; the result names the buffer that holds the output rows.
    pub fn forward_hidden(
        &self,
        plan: &mut Plan,
        hidden_len: usize,
        seq_len: usize,
        max_seq_len: usize,
        config: &TalkerConfig,
    ) -> (outcome: Result<usize, String>)
        requires
            old(plan).wf(),
            self.is_rotary(),
            self.fits(*old(plan), *config),
            config.q_dim() <= usize::MAX,
            config.kv_dim() <= usize::MAX,
            max_seq_len * config.kv_dim() <= usize::MAX,
            seq_len * config.hidden_size <= usize::MAX,
            seq_len * config.q_dim() <= usize::MAX,
            seq_len * config.kv_dim() <= usize::MAX,
            seq_len * config.intermediate_size <= usize::MAX,
            prompt_fault(
                hidden_len,
                seq_len,
                max_seq_len,
                *config,
                self.layers@.len() as int,
            ) is None ==> seq_len <= u32::MAX && countable::<T>(*config, seq_len as int),
        ensures
            final(plan).wf(),
            match outcome {
                Err(message) => {
                    &&& prompt_fault(
                        hidden_len,
                        seq_len,
                        max_seq_len,
                        *config,
                        self.layers@.len() as int,
                    ) == Some(message@)
                    &&& *final(plan) == *old(plan)
                },
                Ok(output) => {
                    &&& prompt_fault(
                        hidden_len,
                        seq_len,
                        max_seq_len,
                        *config,
                        self.layers@.len() as int,
                    ) is None
                    &&& sized(*final(plan), output, seq_len * config.hidden_size)
                    &&& final(plan).values()[output as int] == stack_output::<T>(
                        self.weights(*old(plan)),
                        optional(old(plan).values(), self.final_norm),
                        empty_caches(self.layers@.len(), max_seq_len * config.kv_dim()),
                        Term::Given(old(plan).steps().len()),
                        *config,
                        seq_len as u32,
                        0,
                    )
                    &&& extends(*old(plan), *final(plan))
                },
            },
    {
        if seq_len == 0 {
            return Err("sequence length must be non-zero".to_owned());
        }
        if hidden_len != seq_len * config.hidden_size {
            return Err(input_complaint(hidden_len, seq_len * config.hidden_size));
        }
        if max_seq_len < seq_len {
            return Err(
                "maximum sequence length ".to_owned().concat(&to_decimal(max_seq_len as u64)).concat(
                    " is below prompt length ",
                ).concat(&to_decimal(seq_len as u64)),
            );
        }
        if self.layers.len() > 0 && seq_len > u32::MAX as usize {
            return Err("sequence length exceeds CUDA limits".to_owned());
        }
        let ghost start = *plan;
        let hidden: usize = plan.given(hidden_len);
        let mut session = match self.start_session(plan, max_seq_len, seq_len, config) {
            Ok(session) => session,
            Err(message) => {
                return Err(message);
            },
        };
        let ghost ready = *plan;
        let ghost first = session.first;
        proof {
            assert(extends(start, ready));
            lemma_weights_kept(start, ready, *self, *config);
            assert forall|i: int| 0 <= i < self.layers@.len() implies (#[trigger] self.layers@[i]).apart(
                session.first,
                session.span(),
            ) && self.layers@[i].apart(hidden, 1) by {
                assert(self.layers@[i].fits(start, *config));
            }
        }
        match self.run_layers(plan, &mut session, hidden, seq_len, config) {
            Ok(_) => {},
            Err(message) => {
                return Err(message);
            },
        }
        assert(session.scratch.fits(*plan, *config));
        let output: usize = self.finish(plan, hidden, &session.scratch, seq_len, config);
        proof {
            assert forall|i: int| 0 <= i < start.values().len() implies #[trigger] plan.values()[i]
                == start.values()[i] by {
                assert(ready.values()[i] == start.values()[i]);
            }
        }
        Ok(output)
    }
}

/// Weights do not change while buffers are added.
proof fn lemma_weights_kept<T: QwenDType>(start: Plan, ready: Plan, model: TalkerTransformer<T>, c: TalkerConfig)
    requires
        start.wf(),
        ready.wf(),
        extends(start, ready),
        model.fits(start, c),
    ensures
        model.fits(ready, c),
        model.weights(ready) == model.weights(start),
        optional(ready.values(), model.final_norm) == optional(start.values(), model.final_norm),
{
    assert forall|i: int| 0 <= i < model.layers@.len() implies #[trigger] model.layers@[i].values(
        ready,
    ) == model.layers@[i].values(start) && model.layers@[i].fits(ready, c) by {
        assert(model.layers@[i].fits(start, c));
    }
    assert(model.weights(ready) =~= model.weights(start));
}

/// A plan with one more given buffer still holds the model and the session.
proof fn lemma_extended<T: QwenDType>(
    start: Plan,
    ready: Plan,
    model: TalkerTransformer<T>,
    session: TalkerGenerationSession<T>,
    c: TalkerConfig,
)
    requires
        start.wf(),
        ready.wf(),
        extends(start, ready),
        session.fits(start, c),
        model.fits(start, c),
    ensures
        session.fits(ready, c),
        model.fits(ready, c),
        model.weights(ready) == model.weights(start),
        session.contents(ready) == session.contents(start),
        optional(ready.values(), model.final_norm) == optional(start.values(), model.final_norm),
{
    lemma_weights_kept(start, ready, model, c);
    assert(session.scratch.fits(ready, c));
    assert forall|i: int| 0 <= i < session.caches@.len() implies #[trigger] session.caches@[i].fits(
        ready,
    ) by {
        assert(session.caches@[i].fits(start));
    }
    assert forall|i: int| 0 <= i < session.caches@.len() implies session.contents(ready)[i]
        == session.contents(start)[i] by {
        assert(session.caches@[i].fits(start));
    }
    assert(session.contents(ready) =~= session.contents(start));
}

/// A cache seeded with `count` elements of the buffer given at step `step`.
pub open spec fn seeded(step: int, before: Term, count: u32) -> Term {
    copy_f16_at(Term::Given(step as nat), before, count, 0)
}

impl<T: QwenDType> TalkerGenerationSession<T> {
    /// Seeds every layer with the keys and values of `tokens` prompt tokens.
    /// Each layer's position-major keys and values become given buffers.
    pub fn load_prompt_kv(
        &mut self,
        plan: &mut Plan,
        layers: usize,
        tokens: usize,
        config: &TalkerConfig,
    ) -> (outcome: Result<(), String>)
        requires
            old(plan).wf(),
            old(self).fits(*old(plan), *config),
            tokens <= old(self).max_seq_len,
            config.kv_dim() <= usize::MAX,
            tokens * config.kv_dim() <= u32::MAX,
        ensures
            final(plan).wf(),
            match outcome {
                Err(message) => {
                    &&& layers != old(self).caches@.len()
                    &&& message@ == "prompt has "@ + decimal(layers as nat)
                        + " KV layers, session expects "@ + decimal(old(self).caches@.len())
                    &&& *final(plan) == *old(plan)
                    &&& *final(self) == *old(self)
                },
                Ok(_) => {
                    &&& layers == old(self).caches@.len()
                    &&& final(self).caches@.len() == layers
                    &&& final(self).fits(*final(plan), *config)
                    &&& layers > 0 ==> final(self).seen() == tokens
                    &&& final(self).scratch == old(self).scratch
                    &&& final(self).first == old(self).first
                    &&& final(self).max_seq_len == old(self).max_seq_len
                    &&& forall|i: int|
                        0 <= i < layers ==> {
                            let cache = #[trigger] old(self).caches@[i];
                            let step = old(plan).steps().len() + 2 * i;
                            let count = (tokens * config.kv_dim()) as u32;
                            &&& final(plan).values()[cache.k as int] == seeded(
                                step,
                                old(plan).values()[cache.k as int],
                                count,
                            )
                            &&& final(plan).values()[cache.v as int] == seeded(
                                step + 1,
                                old(plan).values()[cache.v as int],
                                count,
                            )
                            &&& final(self).caches@[i] == (TalkerLayerKvCache {
                                position: tokens,
                                ..cache
                            })
                        }
                    &&& forall|i: int|
                        0 <= i < old(plan).values().len() && !(old(self).first <= i
                            < old(self).first + 2 * layers) ==> #[trigger] final(plan).values()[i]
                            == old(plan).values()[i]
                    &&& forall|i: int|
                        0 <= i < old(plan).values().len() ==> #[trigger] final(plan).sizes()[i]
                            == old(plan).sizes()[i]
                },
            },
    {
        let n: usize = self.caches.len();
        if layers != n {
            return Err(
                "prompt has ".to_owned().concat(&to_decimal(layers as u64)).concat(
                    " KV layers, session expects ",
                ).concat(&to_decimal(n as u64)),
            );
        }
        let kv_dim: usize = config.num_key_value_heads * config.head_dim;
        let count: usize = tokens * kv_dim;
        let ghost start = *plan;
        let ghost caches = self.caches@;
        let ghost base = start.values().len() as int;
        let first: usize = plan.count();
        for i in 0..n
            invariant
                plan.wf(),
                base == start.values().len(),
                extends(start, *plan),
                plan.values().len() == base + 2 * i,
                plan.steps().len() == start.steps().len() + 2 * i,
                forall|j: int|
                    base <= j < base + 2 * i ==> #[trigger] plan.values()[j] == Term::Given(
                        (start.steps().len() + j - base) as nat,
                    ),
                forall|j: int| base <= j < base + 2 * i ==> #[trigger] plan.sizes()[j] == count,
        {
            let k: usize = plan.given(count);
            let v: usize = plan.given(count);
        }
        let ghost ready = *plan;
        proof {
            lemma_rows(tokens as int, self.max_seq_len as int, kv_dim as int);
        }
        for i in 0..n
            invariant
                plan.wf(),
                n == caches.len(),
                n == self.caches@.len(),
                caches == old(self).caches@,
                start == *old(plan),
                first == base,
                base == start.values().len(),
                extends(start, ready),
                ready.values().len() == base + 2 * n,
                forall|j: int|
                    base <= j < base + 2 * n ==> #[trigger] ready.values()[j] == Term::Given(
                        (start.steps().len() + j - base) as nat,
                    ),
                forall|j: int| base <= j < base + 2 * n ==> #[trigger] ready.sizes()[j] == count,
                plan.sizes() == ready.sizes(),
                plan.values().len() == ready.values().len(),
                count == tokens * config.kv_dim(),
                count <= u32::MAX,
                count <= self.max_seq_len * config.kv_dim(),
                tokens <= self.max_seq_len,
                old(self).fits(start, *config),
                self.first == old(self).first,
                self.scratch == old(self).scratch,
                self.max_seq_len == old(self).max_seq_len,
                forall|j: int|
                    0 <= j < i ==> #[trigger] self.caches@[j] == (TalkerLayerKvCache {
                        position: tokens,
                        ..caches[j]
                    }),
                forall|j: int| i <= j < n ==> #[trigger] self.caches@[j] == caches[j],
                forall|j: int|
                    0 <= j < base + 2 * n && !(self.first <= j < self.first + 2 * i)
                        ==> #[trigger] plan.values()[j] == ready.values()[j],
                forall|j: int|
                    0 <= j < i ==> {
                        let step = start.steps().len() + 2 * j;
                        &&& plan.values()[(#[trigger] caches[j]).k as int] == seeded(
                            step,
                            start.values()[caches[j].k as int],
                            count as u32,
                        )
                        &&& plan.values()[caches[j].v as int] == seeded(
                            step + 1,
                            start.values()[caches[j].v as int],
                            count as u32,
                        )
                    },
        {
            let mut cache = self.caches[i];
            let ghost before = *plan;
            proof {
                plan.lemma_buffers_fit();
                assert(old(self).caches@[i as int] == cache);
                assert(holds(start, cache.k, self.max_seq_len * config.kv_dim()));
                assert(holds(start, cache.v, self.max_seq_len * config.kv_dim()));
                assert(ready.sizes()[cache.k as int] == start.sizes()[cache.k as int]);
                assert(ready.sizes()[cache.v as int] == start.sizes()[cache.v as int]);
                assert(ready.sizes()[base + 2 * i] == count);
                assert(ready.sizes()[base + 2 * i + 1] == count);
                assert(plan.values()[base + 2 * i] == ready.values()[base + 2 * i]);
                assert(plan.values()[base + 2 * i + 1] == ready.values()[base + 2 * i + 1]);
                assert(plan.values()[cache.k as int] == start.values()[cache.k as int]);
                assert(plan.values()[cache.v as int] == start.values()[cache.v as int]);
            }
            plan.copy_f16_at(first + 2 * i, cache.k, count as u32, 0);
            plan.copy_f16_at(first + 2 * i + 1, cache.v, count as u32, 0);
            cache.position = tokens;
            self.caches.set(i, cache);
            proof {
                assert forall|j: int| 0 <= j < i implies {
                    let step = start.steps().len() + 2 * j;
                    &&& plan.values()[(#[trigger] caches[j]).k as int] == seeded(
                        step,
                        start.values()[caches[j].k as int],
                        count as u32,
                    )
                    &&& plan.values()[caches[j].v as int] == seeded(
                        step + 1,
                        start.values()[caches[j].v as int],
                        count as u32,
                    )
                } by {
                    assert(old(self).caches@[j] == caches[j]);
                    assert(plan.values()[caches[j].k as int] == before.values()[caches[j].k as int]);
                    assert(plan.values()[caches[j].v as int] == before.values()[caches[j].v as int]);
                }
            }
        }
        proof {
            assert forall|i: int| 0 <= i < n implies {
                let cache = #[trigger] self.caches@[i];
                &&& cache.k == self.first + 2 * i
                &&& cache.v == self.first + 2 * i + 1
                &&& cache.fits(*plan)
                &&& cache.kv_dim == config.kv_dim()
                &&& cache.max_seq_len == self.max_seq_len
                &&& cache.position == tokens
            } by {
                let cache = old(self).caches@[i];
                assert(cache.fits(start));
                assert(ready.sizes()[cache.k as int] == start.sizes()[cache.k as int]);
                assert(ready.sizes()[cache.v as int] == start.sizes()[cache.v as int]);
            }
            assert(self.scratch.fits(*plan, *config));
        }
        Ok(())
    }
}

pub(crate) proof fn lemma_stack_len(prefix: Seq<char>, c: TalkerConfig, attention: Attention, n: nat)
    ensures
        stack_tensors(prefix, c, attention, n).len() == n * per_layer(attention),
    decreases n,
{
    if n > 0 {
        lemma_stack_len(prefix, c, attention, (n - 1) as nat);
        assert((n - 1) * per_layer(attention) + per_layer(attention) == n * per_layer(attention))
            by (nonlinear_arith);
    } else {
        assert(0 * per_layer(attention) == 0) by (nonlinear_arith);
    }
}

proof fn lemma_stack_loaded<T: QwenDType>(
    plan: Plan,
    base: int,
    prefix: Seq<char>,
    c: TalkerConfig,
    attention: Attention,
    n: nat,
    i: int,
)
    requires
        0 <= i < n,
        c.matrices_fit(),
        stores(plan, base, stack_tensors(prefix, c, attention, n)),
    ensures
        layer_at::<T>(base + i * per_layer(attention), attention).fits(plan, c),
    decreases n,
{
    let m = (n - 1) as nat;
    let a = stack_tensors(prefix, c, attention, m);
    let name = prefix + decimal(m);
    let b = layer_tensors(name, c, attention);
    lemma_stack_len(prefix, c, attention, m);
    lemma_stores_split(plan, base, a, b);
    if i == m {
        TalkerDecoderLayer::<T>::law_loaded_weights_fit(
            plan,
            base + m * per_layer(attention),
            name,
            c,
            attention,
        );
    } else {
        lemma_stack_loaded::<T>(plan, base, prefix, c, attention, m, i);
    }
}

impl<T: QwenDType> TalkerTransformer<T> {
    /// Loaded weights exist at their full size.
    pub proof fn law_loaded_weights_fit(
        self,
        plan: Plan,
        base: int,
        prefix: Seq<char>,
        c: TalkerConfig,
        attention: Attention,
        norm: Seq<Tensor>,
    )
        requires
            c.matrices_fit(),
            self.layers@.len() == c.num_hidden_layers,
            layers_from(self.layers@, base, attention),
            stores(
                plan,
                base,
                stack_tensors(prefix, c, attention, c.num_hidden_layers as nat) + norm,
            ),
            norm.len() == (if self.final_norm is Some {
                1int
            } else {
                0
            }),
            self.final_norm matches Some(b) ==> norm[0].shape == seq![c.hidden_size] && b == base
                + c.num_hidden_layers * per_layer(attention),
        ensures
            self.fits(plan, c),
    {
        let n = c.num_hidden_layers as nat;
        let a = stack_tensors(prefix, c, attention, n);
        lemma_stack_len(prefix, c, attention, n);
        lemma_stores_split(plan, base, a, norm);
        assert forall|i: int| 0 <= i < self.layers@.len() implies (#[trigger] self.layers@[i]).fits(
            plan,
            c,
        ) by {
            lemma_stack_loaded::<T>(plan, base, prefix, c, attention, n, i);
        }
        if self.final_norm is Some {
            lemma_stored1(plan, base + n * per_layer(attention), norm, 0, c.hidden_size);
        }
    }
}

impl<T: QwenDType> TalkerTransformer<T> {
    /// A session that has seen nothing gives what a single pass gives: it
    /// starts from empty caches, and buffers that were added since leave the
    /// weights as they are.
    pub proof fn law_a_fresh_session_agrees_with_one_pass(
        self,
        session: TalkerGenerationSession<T>,
        before: Plan,
        plan: Plan,
        hidden: Term,
        c: TalkerConfig,
        rows: u32,
        max_seq_len: usize,
    )
        requires
            self.fits(before, c),
            extends(before, plan),
            session.seen() == 0,
            session.contents(plan) == empty_caches(
                self.layers@.len(),
                max_seq_len * c.kv_dim(),
            ),
        ensures
            stack_output::<T>(
                self.weights(plan),
                optional(plan.values(), self.final_norm),
                session.contents(plan),
                hidden,
                c,
                rows,
                session.seen() as usize,
            ) == stack_output::<T>(
                self.weights(before),
                optional(before.values(), self.final_norm),
                empty_caches(self.layers@.len(), max_seq_len * c.kv_dim()),
                hidden,
                c,
                rows,
                0,
            ),
    {
        assert forall|i: int| 0 <= i < self.layers@.len() implies #[trigger] self.weights(plan)[i]
            == self.weights(before)[i] by {
            assert(self.layers@[i].fits(before, c));
        }
        assert(self.weights(plan) =~= self.weights(before));
    }
}

} // verus!
