//! The T3 speech-token decoder.
use vstd::prelude::*;
use vstd::string::*;
use crate::chatterbox::{LAYERS, THETA_500000};
use crate::device::{EPS_1E5, Plan, Scalar, Term, extends, holds, sized};
use crate::device::value::{
    add_inplace_f32_f16, copy_f16_at, gemv_dual_f16_out_a, gemv_dual_f16_out_b,
    matmul_f16, mha_fused, rms_norm_f32in, rope_neox_freqs, silu,
};
use crate::qwen3_tts::layer::projected;
use crate::qwen3_tts::precision::F16;
use crate::text::{decimal, to_decimal};
use crate::weights::{
    Absence, Complaint, Fault, Loader, Role, Tensor, labelled, lemma_stored1, lemma_stored2, stores,
};

verus! {

/// One T3 decoder layer, as buffers.
#[derive(Clone, Copy, Debug, PartialEq, Eq, Structural)]
pub struct ChatterboxT3Layer {
    pub input_norm: usize,
    pub q_proj: usize,
    pub k_proj: usize,
    pub v_proj: usize,
    pub o_proj: usize,
    pub post_attention_norm: usize,
    pub gate_proj: usize,
    pub up_proj: usize,
    pub down_proj: usize,
}

/// The tensors of a [`ChatterboxT3Layer`] in loading order.
pub open spec fn t3_layer_tensors(prefix: Seq<char>) -> Seq<Tensor> {
    seq![
        labelled("Chatterbox T3 "@, prefix + ".input_layernorm.weight"@, seq![1024]),
        labelled("Chatterbox T3 "@, prefix + ".self_attn.q_proj.weight"@, seq![1024, 1024]),
        labelled("Chatterbox T3 "@, prefix + ".self_attn.k_proj.weight"@, seq![1024, 1024]),
        labelled("Chatterbox T3 "@, prefix + ".self_attn.v_proj.weight"@, seq![1024, 1024]),
        labelled("Chatterbox T3 "@, prefix + ".self_attn.o_proj.weight"@, seq![1024, 1024]),
        labelled("Chatterbox T3 "@, prefix + ".post_attention_layernorm.weight"@, seq![1024]),
        labelled("Chatterbox T3 "@, prefix + ".mlp.gate_proj.weight"@, seq![4096, 1024]),
        labelled("Chatterbox T3 "@, prefix + ".mlp.up_proj.weight"@, seq![4096, 1024]),
        labelled("Chatterbox T3 "@, prefix + ".mlp.down_proj.weight"@, seq![1024, 4096]),
    ]
}

impl ChatterboxT3Layer {
    /// The buffers that start at `base`.
    pub open spec fn at(base: int) -> Self {
        ChatterboxT3Layer {
            input_norm: base as usize,
            q_proj: (base + 1) as usize,
            k_proj: (base + 2) as usize,
            v_proj: (base + 3) as usize,
            o_proj: (base + 4) as usize,
            post_attention_norm: (base + 5) as usize,
            gate_proj: (base + 6) as usize,
            up_proj: (base + 7) as usize,
            down_proj: (base + 8) as usize,
        }
    }

    /// The weights exist at their full size.
    pub open spec fn fits(self, plan: Plan) -> bool {
        &&& holds(plan, self.input_norm, 1024)
        &&& holds(plan, self.q_proj, 1048576)
        &&& holds(plan, self.k_proj, 1048576)
        &&& holds(plan, self.v_proj, 1048576)
        &&& holds(plan, self.o_proj, 1048576)
        &&& holds(plan, self.post_attention_norm, 1024)
        &&& holds(plan, self.gate_proj, 4194304)
        &&& holds(plan, self.up_proj, 4194304)
        &&& holds(plan, self.down_proj, 4194304)
    }

    /// Requires the tensors.
    fn load_prefix(loader: &mut Loader, prefix: &str) -> (weights: Self)
        requires
            old(loader).wf(),
        ensures
            final(loader).wf(),
            weights == Self::at(old(loader).tensors().len() as int),
            final(loader).tensors() == old(loader).tensors() + t3_layer_tensors(prefix@),
    {
        let input_norm: usize = loader.labelled_vector("Chatterbox T3 ", prefix, ".input_layernorm.weight", 1024);
        let q_proj: usize = loader.labelled_matrix("Chatterbox T3 ", prefix, ".self_attn.q_proj.weight", 1024, 1024);
        let k_proj: usize = loader.labelled_matrix("Chatterbox T3 ", prefix, ".self_attn.k_proj.weight", 1024, 1024);
        let v_proj: usize = loader.labelled_matrix("Chatterbox T3 ", prefix, ".self_attn.v_proj.weight", 1024, 1024);
        let o_proj: usize = loader.labelled_matrix("Chatterbox T3 ", prefix, ".self_attn.o_proj.weight", 1024, 1024);
        let post_attention_norm: usize = loader.labelled_vector("Chatterbox T3 ", prefix, ".post_attention_layernorm.weight", 1024);
        let gate_proj: usize = loader.labelled_matrix("Chatterbox T3 ", prefix, ".mlp.gate_proj.weight", 4096, 1024);
        let up_proj: usize = loader.labelled_matrix("Chatterbox T3 ", prefix, ".mlp.up_proj.weight", 4096, 1024);
        let down_proj: usize = loader.labelled_matrix("Chatterbox T3 ", prefix, ".mlp.down_proj.weight", 1024, 4096);
        assert(loader.tensors() =~= old(loader).tensors() + t3_layer_tensors(prefix@));
        ChatterboxT3Layer { input_norm, q_proj, k_proj, v_proj, o_proj, post_attention_norm, gate_proj, up_proj, down_proj }
    }
}

/// `id` lies outside the `n` buffers that start at `first`.
pub open spec fn outside(id: usize, first: usize, n: int) -> bool {
    id < first || id >= first + n
}

impl ChatterboxT3Layer {
    /// None of the weights is one of the `n` buffers from `first`.
    pub open spec fn apart(self, first: usize, n: int) -> bool {
        &&& outside(self.input_norm, first, n)
        &&& outside(self.q_proj, first, n)
        &&& outside(self.k_proj, first, n)
        &&& outside(self.v_proj, first, n)
        &&& outside(self.o_proj, first, n)
        &&& outside(self.post_attention_norm, first, n)
        &&& outside(self.gate_proj, first, n)
        &&& outside(self.up_proj, first, n)
        &&& outside(self.down_proj, first, n)
    }

    /// Requires the weights of layer `layer_index`.
    pub fn load(loader: &mut Loader, layer_index: usize) -> (outcome: Result<Self, String>)
        requires
            old(loader).wf(),
        ensures
            final(loader).wf(),
            match outcome {
                Err(message) => {
                    &&& layer_index >= 30
                    &&& message@ == "Chatterbox T3 layer "@ + decimal(layer_index as nat)
                        + " is outside 0..30"@
                    &&& *final(loader) == *old(loader)
                },
                Ok(layer) => {
                    &&& layer_index < 30
                    &&& layer == Self::at(old(loader).tensors().len() as int)
                    &&& final(loader).tensors() == old(loader).tensors() + t3_layer_tensors(
                        "tfmr.layers."@ + decimal(layer_index as nat),
                    )
                },
            },
    {
        if layer_index >= LAYERS {
            return Err(
                "Chatterbox T3 layer ".to_owned().concat(&to_decimal(layer_index as u64)).concat(
                    " is outside 0..30",
                ),
            );
        }
        let prefix = "tfmr.layers.".to_owned().concat(&to_decimal(layer_index as u64));
        Ok(Self::load_prefix(loader, prefix.as_str()))
    }
}

/// Keys and values of the tokens one layer has seen.
#[derive(Clone, Copy, Debug, PartialEq, Eq, Structural)]
pub struct ChatterboxT3KvCache {
    pub k: usize,
    pub v: usize,
    pub position: usize,
    pub max_seq_len: usize,
}

/// Working buffers shared by every layer, one after another from `norm` on:
/// norm, q, k, v, attention, attention_out, gate, up, activation, mlp_out.
#[derive(Clone, Copy, Debug, PartialEq, Eq, Structural)]
pub struct ChatterboxT3BatchScratch {
    pub max_tokens: usize,
    pub norm: usize,
}

impl ChatterboxT3BatchScratch {
    /// The buffers hold `max_tokens` tokens.
    pub open spec fn fits(self, plan: Plan) -> bool {
        &&& self.norm + 10 <= plan.values().len()
        &&& self.norm + 10 <= usize::MAX
        &&& forall|i: int|
            self.norm <= i < self.norm + 6 || i == self.norm + 9 ==> 1024 * self.max_tokens
                == #[trigger] plan.sizes()[i]
        &&& forall|i: int|
            self.norm + 6 <= i < self.norm + 9 ==> 4096 * self.max_tokens
                == #[trigger] plan.sizes()[i]
    }

    /// Allocates working buffers for `max_tokens` tokens.
    pub fn allocate(plan: &mut Plan, max_tokens: usize) -> (outcome: Result<Self, String>)
        requires
            old(plan).wf(),
            4096 * max_tokens <= usize::MAX,
        ensures
            final(plan).wf(),
            match outcome {
                Err(message) => {
                    &&& max_tokens == 0
                    &&& message@ == "T3 scratch capacity must be non-zero"@
                    &&& *final(plan) == *old(plan)
                },
                Ok(scratch) => {
                    &&& max_tokens > 0
                    &&& scratch.max_tokens == max_tokens
                    &&& scratch.norm == old(plan).values().len()
                    &&& scratch.fits(*final(plan))
                    &&& final(plan).values().len() == old(plan).values().len() + 10
                    &&& extends(*old(plan), *final(plan))
                },
            },
    {
        if max_tokens == 0 {
            return Err("T3 scratch capacity must be non-zero".to_owned());
        }
        let norm: usize = plan.zeros(max_tokens * 1024);
        let q: usize = plan.zeros(max_tokens * 1024);
        let k: usize = plan.zeros(max_tokens * 1024);
        let v: usize = plan.zeros(max_tokens * 1024);
        let attention: usize = plan.zeros(max_tokens * 1024);
        let attention_out: usize = plan.zeros(max_tokens * 1024);
        let gate: usize = plan.zeros(max_tokens * 4096);
        let up: usize = plan.zeros(max_tokens * 4096);
        let activation: usize = plan.zeros(max_tokens * 4096);
        let mlp_out: usize = plan.zeros(max_tokens * 1024);
        proof {
            plan.lemma_buffers_fit();
        }
        Ok(ChatterboxT3BatchScratch { max_tokens, norm })
    }
}

impl ChatterboxT3KvCache {
    /// The cached tokens lie within the buffers.
    pub open spec fn fits(self, plan: Plan) -> bool {
        &&& self.position <= self.max_seq_len
        &&& self.k != self.v
        &&& holds(plan, self.k, 1024 * self.max_seq_len)
        &&& holds(plan, self.v, 1024 * self.max_seq_len)
    }

    /// Allocates an empty cache for `max_seq_len` tokens.
    pub fn allocate(plan: &mut Plan, max_seq_len: usize) -> (outcome: Result<Self, String>)
        requires
            old(plan).wf(),
            1024 * max_seq_len <= usize::MAX,
        ensures
            final(plan).wf(),
            match outcome {
                Err(message) => {
                    &&& max_seq_len == 0
                    &&& message@ == "T3 KV capacity must be non-zero"@
                    &&& *final(plan) == *old(plan)
                },
                Ok(cache) => {
                    &&& max_seq_len > 0
                    &&& cache.position == 0
                    &&& cache.max_seq_len == max_seq_len
                    &&& cache.k == old(plan).values().len()
                    &&& cache.v == cache.k + 1
                    &&& cache.fits(*final(plan))
                    &&& final(plan).values() == old(plan).values().push(
                        Term::Zeros((1024 * max_seq_len) as nat),
                    ).push(Term::Zeros((1024 * max_seq_len) as nat))
                    &&& final(plan).sizes() == old(plan).sizes().push(
                        (1024 * max_seq_len) as usize,
                    ).push((1024 * max_seq_len) as usize)
                },
            },
    {
        if max_seq_len == 0 {
            return Err("T3 KV capacity must be non-zero".to_owned());
        }
        let k: usize = plan.zeros(max_seq_len * 1024);
        let v: usize = plan.zeros(max_seq_len * 1024);
        Ok(ChatterboxT3KvCache { k, v, position: 0, max_seq_len })
    }
}

/// What a layer reads and leaves behind.
pub struct T3State {
    pub hidden: Term,
    pub k: Term,
    pub v: Term,
}

/// The weights of a layer, by value.
pub struct T3Values {
    pub input_norm: Term,
    pub q_proj: Term,
    pub k_proj: Term,
    pub v_proj: Term,
    pub o_proj: Term,
    pub post_attention_norm: Term,
    pub gate_proj: Term,
    pub up_proj: Term,
    pub down_proj: Term,
}

impl ChatterboxT3Layer {
    /// The values of the layer's weights.
    pub open spec fn values(self, plan: Plan) -> T3Values {
        let v = plan.values();
        T3Values {
            input_norm: v[self.input_norm as int],
            q_proj: v[self.q_proj as int],
            k_proj: v[self.k_proj as int],
            v_proj: v[self.v_proj as int],
            o_proj: v[self.o_proj as int],
            post_attention_norm: v[self.post_attention_norm as int],
            gate_proj: v[self.gate_proj as int],
            up_proj: v[self.up_proj as int],
            down_proj: v[self.down_proj as int],
        }
    }
}


/// Rotary positions of `rows` tokens from `pos` on.
pub open spec fn rotated(x: Term, factors: Term, rows: u32, pos: usize) -> Term {
    rope_neox_freqs(x, factors, rows, 16, 64, pos as u32, Scalar::Single(THETA_500000))
}

/// `rows` tokens attend to everything cached up to and with them; the result
/// is added to the residual stream.
pub open spec fn attended(w: T3Values, factors: Term, s: T3State, rows: u32, pos: usize) -> T3State {
    let normed = rms_norm_f32in(s.hidden, w.input_norm, rows, 1024, Scalar::Single(EPS_1E5));
    let count = (1024 * rows) as u32;
    let offset = (1024 * pos) as usize;
    let q = rotated(projected::<F16>(normed, w.q_proj, rows, 1024, 1024), factors, rows, pos);
    let k = copy_f16_at(
        rotated(projected::<F16>(normed, w.k_proj, rows, 1024, 1024), factors, rows, pos),
        s.k,
        count,
        offset,
    );
    let v = copy_f16_at(projected::<F16>(normed, w.v_proj, rows, 1024, 1024), s.v, count, offset);
    let out = mha_fused(q, k, v, 64, 16, 16, rows, (pos + rows) as u32, pos as u32);
    T3State {
        hidden: add_inplace_f32_f16(
            s.hidden,
            projected::<F16>(out, w.o_proj, rows, 1024, 1024),
            (1024 * rows) as u32,
        ),
        k,
        v,
    }
}

/// A normalised SwiGLU network added to the residual stream.
pub open spec fn fed_forward(w: T3Values, x: Term, rows: u32) -> Term {
    let normed = rms_norm_f32in(x, w.post_attention_norm, rows, 1024, Scalar::Single(EPS_1E5));
    let gate = if rows == 1 {
        gemv_dual_f16_out_a(normed, w.gate_proj, w.up_proj, 4096, 1024)
    } else {
        matmul_f16(normed, w.gate_proj, rows, 4096, 1024)
    };
    let up = if rows == 1 {
        gemv_dual_f16_out_b(normed, w.gate_proj, w.up_proj, 4096, 1024)
    } else {
        matmul_f16(normed, w.up_proj, rows, 4096, 1024)
    };
    add_inplace_f32_f16(
        x,
        projected::<F16>(silu(gate, up, (4096 * rows) as u32), w.down_proj, rows, 1024, 4096),
        (1024 * rows) as u32,
    )
}

/// What a T3 layer computes for `rows` new tokens after `pos` cached ones.
#[verifier::opaque]
pub open spec fn t3_layer(w: T3Values, factors: Term, s: T3State, rows: u32, pos: usize) -> T3State {
    let mid = attended(w, factors, s, rows, pos);
    T3State { hidden: fed_forward(w, mid.hidden, rows), ..mid }
}

/// Why a layer cannot take `seq_len` more tokens, if it cannot.
pub open spec fn step_fault(
    hidden_len: usize,
    seq_len: usize,
    cache: ChatterboxT3KvCache,
    scratch: ChatterboxT3BatchScratch,
) -> Option<Seq<char>> {
    if seq_len == 0 {
        Some("T3 sequence length must be non-zero"@)
    } else if seq_len > scratch.max_tokens {
        Some(
            "T3 sequence has "@ + decimal(seq_len as nat) + " tokens, scratch holds "@ + decimal(
                scratch.max_tokens as nat,
            ),
        )
    } else if hidden_len < seq_len * 1024 {
        Some("T3 device hidden state is too small"@)
    } else if cache.position + seq_len > cache.max_seq_len {
        Some(
            "T3 KV capacity "@ + decimal(cache.max_seq_len as nat) + " exceeded by position "@
                + decimal(cache.position as nat) + " + "@ + decimal(seq_len as nat),
        )
    } else if seq_len > u32::MAX {
        Some("T3 sequence exceeds CUDA limits"@)
    } else if cache.position > u32::MAX {
        Some("T3 position exceeds CUDA limits"@)
    } else if cache.position + seq_len > u32::MAX {
        Some("T3 KV length exceeds CUDA limits"@)
    } else {
        None
    }
}

/// The layer, the stream `hidden`, the factors, the cache and the scratch
/// buffers exist at their sizes and do not overlap.
pub open spec fn laid_out(
    plan: Plan,
    layer: ChatterboxT3Layer,
    hidden: usize,
    factors: usize,
    cache: ChatterboxT3KvCache,
    scratch: ChatterboxT3BatchScratch,
) -> bool {
    &&& hidden < plan.values().len()
    &&& layer.fits(plan)
    &&& cache.fits(plan)
    &&& scratch.fits(plan)
    &&& holds(plan, factors, 32)
    &&& layer.apart(hidden, 1)
    &&& layer.apart(cache.k, 1)
    &&& layer.apart(cache.v, 1)
    &&& layer.apart(scratch.norm, 10)
    &&& outside(factors, scratch.norm, 10)
    &&& outside(hidden, scratch.norm, 10)
    &&& outside(cache.k, scratch.norm, 10)
    &&& outside(cache.v, scratch.norm, 10)
    &&& factors != hidden
    &&& factors != cache.k
    &&& factors != cache.v
    &&& hidden != cache.k
    &&& hidden != cache.v
}

/// Everything but the scratch buffers and `other` is as before.
pub open spec fn kept(before: Plan, after: Plan, norm: usize, other: Set<int>) -> bool {
    &&& after.sizes() == before.sizes()
    &&& after.values().len() == before.values().len()
    &&& forall|i: int|
        0 <= i < before.values().len() && !(norm <= i < norm + 10) && !other.contains(i)
            ==> #[trigger] after.values()[i] == before.values()[i]
}

impl ChatterboxT3Layer {
    /// `out = weight * x` for each of `rows` rows.
    fn project(plan: &mut Plan, x: usize, weight: usize, out: usize, rows: u32, n: u32, k: u32)
        requires
            old(plan).wf(),
            rows > 0,
            holds(*old(plan), x, rows * k),
            holds(*old(plan), weight, n * k),
            holds(*old(plan), out, rows * n),
        ensures
            final(plan).wf(),
            final(plan).sizes() == old(plan).sizes(),
            final(plan).values() == old(plan).values().update(
                out as int,
                projected::<F16>(
                    old(plan).values()[x as int],
                    old(plan).values()[weight as int],
                    rows,
                    n,
                    k,
                ),
            ),
    {
        if rows == 1 {
            plan.gemv_f16(x, weight, out, n, k);
        } else {
            plan.matmul_f16(x, weight, out, rows, n, k);
        }
    }

    /// Computes queries, keys and values, appends to the cache, attends, and
    /// adds the result to the stream.
    fn attend(
        &self,
        plan: &mut Plan,
        hidden: usize,
        factors: usize,
        cache: &ChatterboxT3KvCache,
        scratch: &ChatterboxT3BatchScratch,
        rows: u32,
    )
        requires
            old(plan).wf(),
            laid_out(*old(plan), *self, hidden, factors, *cache, *scratch),
            0 < rows <= scratch.max_tokens,
            4096 * rows <= u32::MAX,
            1024 * rows <= old(plan).sizes()[hidden as int],
            cache.position + rows <= cache.max_seq_len,
            cache.position + rows <= u32::MAX,
        ensures
            final(plan).wf(),
            kept(
                *old(plan),
                *final(plan),
                scratch.norm,
                set![hidden as int, cache.k as int, cache.v as int],
            ),
            ({
                let before = T3State {
                    hidden: old(plan).values()[hidden as int],
                    k: old(plan).values()[cache.k as int],
                    v: old(plan).values()[cache.v as int],
                };
                let after = attended(
                    self.values(*old(plan)),
                    old(plan).values()[factors as int],
                    before,
                    rows,
                    cache.position,
                );
                &&& final(plan).values()[hidden as int] == after.hidden
                &&& final(plan).values()[cache.k as int] == after.k
                &&& final(plan).values()[cache.v as int] == after.v
            }),
    {
        let norm: usize = scratch.norm;
        let q: usize = norm + 1;
        let k: usize = norm + 2;
        let v: usize = norm + 3;
        let attention: usize = norm + 4;
        let attention_out: usize = norm + 5;
        let position: u32 = cache.position as u32;
        let theta = Scalar::Single(THETA_500000);
        plan.rms_norm_f32in(hidden, self.input_norm, norm, rows, 1024, Scalar::Single(EPS_1E5));
        Self::project(plan, norm, self.q_proj, q, rows, 1024, 1024);
        Self::project(plan, norm, self.k_proj, k, rows, 1024, 1024);
        Self::project(plan, norm, self.v_proj, v, rows, 1024, 1024);
        plan.rope_neox_freqs(q, factors, rows, 16, 64, position, theta);
        plan.rope_neox_freqs(k, factors, rows, 16, 64, position, theta);
        let offset: usize = cache.position * 1024;
        plan.copy_f16_at(k, cache.k, 1024 * rows, offset);
        plan.copy_f16_at(v, cache.v, 1024 * rows, offset);
        plan.mha_fused(q, cache.k, cache.v, attention, 64, 16, 16, rows, position + rows, position);
        Self::project(plan, attention, self.o_proj, attention_out, rows, 1024, 1024);
        plan.add_inplace_f32_f16(hidden, attention_out, 1024 * rows);
    }

    /// Runs the feed-forward network and adds its result to the stream.
    fn feed_forward(
        &self,
        plan: &mut Plan,
        hidden: usize,
        scratch: &ChatterboxT3BatchScratch,
        rows: u32,
    )
        requires
            old(plan).wf(),
            self.fits(*old(plan)),
            scratch.fits(*old(plan)),
            hidden < old(plan).values().len(),
            self.apart(hidden, 1),
            self.apart(scratch.norm, 10),
            outside(hidden, scratch.norm, 10),
            0 < rows <= scratch.max_tokens,
            4096 * rows <= u32::MAX,
            1024 * rows <= old(plan).sizes()[hidden as int],
        ensures
            final(plan).wf(),
            kept(*old(plan), *final(plan), scratch.norm, set![hidden as int]),
            final(plan).values()[hidden as int] == fed_forward(
                self.values(*old(plan)),
                old(plan).values()[hidden as int],
                rows,
            ),
    {
        let norm: usize = scratch.norm;
        let gate: usize = norm + 6;
        let up: usize = norm + 7;
        let activation: usize = norm + 8;
        let mlp_out: usize = norm + 9;
        plan.rms_norm_f32in(
            hidden,
            self.post_attention_norm,
            norm,
            rows,
            1024,
            Scalar::Single(EPS_1E5),
        );
        if rows == 1 {
            plan.gemv_dual_f16(norm, self.gate_proj, self.up_proj, gate, up, 4096, 1024);
        } else {
            plan.matmul_f16(norm, self.gate_proj, gate, rows, 4096, 1024);
            plan.matmul_f16(norm, self.up_proj, up, rows, 4096, 1024);
        }
        plan.silu(gate, up, activation, 4096 * rows);
        Self::project(plan, activation, self.down_proj, mlp_out, rows, 1024, 4096);
        plan.add_inplace_f32_f16(hidden, mlp_out, 1024 * rows);
    }

    /// Runs the layer on `seq_len` new tokens whose states are in `hidden`,
    /// appending their keys and values to the cache.
    pub fn forward_cached_device(
        &self,
        plan: &mut Plan,
        hidden: usize,
        seq_len: usize,
        rope_factors: usize,
        cache: &mut ChatterboxT3KvCache,
        scratch: &ChatterboxT3BatchScratch,
    ) -> (outcome: Result<(), String>)
        requires
            old(plan).wf(),
            laid_out(*old(plan), *self, hidden, rope_factors, *old(cache), *scratch),
            seq_len * 1024 <= usize::MAX,
            old(cache).position + seq_len <= usize::MAX,
            step_fault(
                old(plan).sizes()[hidden as int],
                seq_len,
                *old(cache),
                *scratch,
            ) is None ==> seq_len * 4096 <= u32::MAX,
        ensures
            final(plan).wf(),
            match outcome {
                Err(message) => {
                    &&& step_fault(
                        old(plan).sizes()[hidden as int],
                        seq_len,
                        *old(cache),
                        *scratch,
                    ) == Some(message@)
                    &&& *final(plan) == *old(plan)
                    &&& *final(cache) == *old(cache)
                },
                Ok(_) => {
                    let after = t3_layer(
                        self.values(*old(plan)),
                        old(plan).values()[rope_factors as int],
                        T3State {
                            hidden: old(plan).values()[hidden as int],
                            k: old(plan).values()[old(cache).k as int],
                            v: old(plan).values()[old(cache).v as int],
                        },
                        seq_len as u32,
                        old(cache).position,
                    );
                    &&& step_fault(
                        old(plan).sizes()[hidden as int],
                        seq_len,
                        *old(cache),
                        *scratch,
                    ) is None
                    &&& final(plan).values()[hidden as int] == after.hidden
                    &&& final(plan).values()[old(cache).k as int] == after.k
                    &&& final(plan).values()[old(cache).v as int] == after.v
                    &&& kept(
                        *old(plan),
                        *final(plan),
                        scratch.norm,
                        set![hidden as int, old(cache).k as int, old(cache).v as int],
                    )
                    &&& *final(cache) == (ChatterboxT3KvCache {
                        position: (old(cache).position + seq_len) as usize,
                        ..*old(cache)
                    })
                },
            },
    {
        if seq_len == 0 {
            return Err("T3 sequence length must be non-zero".to_owned());
        }
        if seq_len > scratch.max_tokens {
            return Err(
                "T3 sequence has ".to_owned().concat(&to_decimal(seq_len as u64)).concat(
                    " tokens, scratch holds ",
                ).concat(&to_decimal(scratch.max_tokens as u64)),
            );
        }
        if plan.size(hidden) < seq_len * 1024 {
            return Err("T3 device hidden state is too small".to_owned());
        }
        if cache.position + seq_len > cache.max_seq_len {
            return Err(
                "T3 KV capacity ".to_owned().concat(&to_decimal(cache.max_seq_len as u64)).concat(
                    " exceeded by position ",
                ).concat(&to_decimal(cache.position as u64)).concat(" + ").concat(
                    &to_decimal(seq_len as u64),
                ),
            );
        }
        if seq_len > u32::MAX as usize {
            return Err("T3 sequence exceeds CUDA limits".to_owned());
        }
        if cache.position > u32::MAX as usize {
            return Err("T3 position exceeds CUDA limits".to_owned());
        }
        if cache.position + seq_len > u32::MAX as usize {
            return Err("T3 KV length exceeds CUDA limits".to_owned());
        }
        let rows: u32 = seq_len as u32;
        proof {
            reveal(t3_layer);
        }
        self.attend(plan, hidden, rope_factors, cache, scratch, rows);
        self.feed_forward(plan, hidden, scratch, rows);
        cache.position = cache.position + seq_len;
        Ok(())
    }
}

/// A single token at position zero attends to itself; rotation there is the
/// identity.
pub open spec fn first_attended(w: T3Values, x: Term) -> Term {
    let normed = rms_norm_f32in(x, w.input_norm, 1, 1024, Scalar::Single(EPS_1E5));
    let out = mha_fused(
        matmul_f16(normed, w.q_proj, 1, 1024, 1024),
        matmul_f16(normed, w.k_proj, 1, 1024, 1024),
        matmul_f16(normed, w.v_proj, 1, 1024, 1024),
        64,
        16,
        16,
        1,
        1,
        0,
    );
    add_inplace_f32_f16(x, matmul_f16(out, w.o_proj, 1, 1024, 1024), 1024)
}

/// What a layer computes for a single token at position zero.
#[verifier::opaque]
pub open spec fn t3_first(w: T3Values, x: Term) -> Term {
    let mid = first_attended(w, x);
    let normed = rms_norm_f32in(mid, w.post_attention_norm, 1, 1024, Scalar::Single(EPS_1E5));
    let activated = silu(
        matmul_f16(normed, w.gate_proj, 1, 4096, 1024),
        matmul_f16(normed, w.up_proj, 1, 4096, 1024),
        4096,
    );
    add_inplace_f32_f16(mid, matmul_f16(activated, w.down_proj, 1, 1024, 4096), 1024)
}

/// The stream after the first `n` layers, for a single token at position zero.
pub open spec fn first_layers(weights: Seq<T3Values>, x: Term, n: nat) -> Term
    decreases n,
{
    if n == 0 {
        x
    } else {
        t3_first(weights[n - 1], first_layers(weights, x, (n - 1) as nat))
    }
}

/// The complaint of a single token of the wrong width.
pub open spec fn width_fault(found: usize) -> Seq<char> {
    "Chatterbox T3 hidden input has "@ + decimal(found as nat) + " values, expected 1024"@
}

/// The complaint of a single token of the wrong width.
fn width_complaint(found: usize) -> (message: String)
    ensures
        message@ == width_fault(found),
{
    "Chatterbox T3 hidden input has ".to_owned().concat(&to_decimal(found as u64)).concat(
        " values, expected 1024",
    )
}

impl ChatterboxT3Layer {
    /// Runs the layer on a single token at position zero.
    fn forward_first_token_device(
        &self,
        plan: &mut Plan,
        hidden: usize,
        scratch: &ChatterboxT3BatchScratch,
    )
        requires
            old(plan).wf(),
            self.fits(*old(plan)),
            scratch.fits(*old(plan)),
            scratch.max_tokens >= 1,
            holds(*old(plan), hidden, 1024),
            self.apart(hidden, 1),
            self.apart(scratch.norm, 10),
            outside(hidden, scratch.norm, 10),
        ensures
            final(plan).wf(),
            kept(*old(plan), *final(plan), scratch.norm, set![hidden as int]),
            final(plan).values()[hidden as int] == t3_first(
                self.values(*old(plan)),
                old(plan).values()[hidden as int],
            ),
    {
        let norm: usize = scratch.norm;
        let q: usize = norm + 1;
        let k: usize = norm + 2;
        let v: usize = norm + 3;
        let attention: usize = norm + 4;
        let attention_out: usize = norm + 5;
        let gate: usize = norm + 6;
        let up: usize = norm + 7;
        let activation: usize = norm + 8;
        let mlp_out: usize = norm + 9;
        proof {
            reveal(t3_first);
        }
        plan.rms_norm_f32in(hidden, self.input_norm, norm, 1, 1024, Scalar::Single(EPS_1E5));
        plan.matmul_f16(norm, self.q_proj, q, 1, 1024, 1024);
        plan.matmul_f16(norm, self.k_proj, k, 1, 1024, 1024);
        plan.matmul_f16(norm, self.v_proj, v, 1, 1024, 1024);
        plan.mha_fused(q, k, v, attention, 64, 16, 16, 1, 1, 0);
        plan.matmul_f16(attention, self.o_proj, attention_out, 1, 1024, 1024);
        plan.add_inplace_f32_f16(hidden, attention_out, 1024);
        plan.rms_norm_f32in(
            hidden,
            self.post_attention_norm,
            norm,
            1,
            1024,
            Scalar::Single(EPS_1E5),
        );
        plan.matmul_f16(norm, self.gate_proj, gate, 1, 4096, 1024);
        plan.matmul_f16(norm, self.up_proj, up, 1, 4096, 1024);
        plan.silu(gate, up, activation, 4096);
        plan.matmul_f16(activation, self.down_proj, mlp_out, 1, 1024, 4096);
        plan.add_inplace_f32_f16(hidden, mlp_out, 1024);
    }

    /// Runs the layer on a single token from the host, at position zero. The
    /// state becomes a given buffer, which also holds the result.
    pub fn forward_first_token(&self, plan: &mut Plan, hidden_len: usize) -> (outcome: Result<
        usize,
        String,
    >)
        requires
            old(plan).wf(),
            self.fits(*old(plan)),
        ensures
            final(plan).wf(),
            match outcome {
                Err(message) => {
                    &&& hidden_len != 1024
                    &&& message@ == width_fault(hidden_len)
                    &&& *final(plan) == *old(plan)
                },
                Ok(output) => {
                    &&& hidden_len == 1024
                    &&& sized(*final(plan), output, 1024)
                    &&& extends(*old(plan), *final(plan))
                    &&& final(plan).values()[output as int] == t3_first(
                        self.values(*old(plan)),
                        Term::Given(old(plan).steps().len()),
                    )
                },
            },
    {
        if hidden_len != 1024 {
            return Err(width_complaint(hidden_len));
        }
        let ghost start = *plan;
        let hidden: usize = plan.given(hidden_len);
        match ChatterboxT3BatchScratch::allocate(plan, 1) {
            Err(message) => Err(message),
            Ok(scratch) => {
                assert(self.values(*plan) == self.values(start));
                self.forward_first_token_device(plan, hidden, &scratch);
                Ok(hidden)
            },
        }
    }
}

/// The T3 decoder, as buffers.
pub struct ChatterboxT3Transformer {
    pub layers: Vec<ChatterboxT3Layer>,
    pub final_norm: usize,
    pub rope_factors: usize,
}

/// The caches and working buffers of one generation.
pub struct ChatterboxT3Session {
    pub caches: Vec<ChatterboxT3KvCache>,
    pub scratch: ChatterboxT3BatchScratch,
    pub max_seq_len: usize,
    /// The first of the session's buffers, which follow one another.
    pub first: usize,
}

/// The tensors of the first `n` layers.
pub open spec fn t3_layers_tensors(n: nat) -> Seq<Tensor>
    decreases n,
{
    if n == 0 {
        seq![]
    } else {
        t3_layers_tensors((n - 1) as nat) + t3_layer_tensors(
            "tfmr.layers."@ + decimal((n - 1) as nat),
        )
    }
}

/// The final normalisation of the decoder.
pub open spec fn t3_norm_tensor() -> Tensor {
    Tensor {
        name: "tfmr.norm.weight"@,
        shape: seq![1024],
        fault: Fault::labelled("Chatterbox T3 final norm"@).gone(Absence::NotFound),
        role: Role::Plain,
    }
}

impl ChatterboxT3Session {
    /// How many buffers the session has.
    pub open spec fn span(self) -> int {
        (2 * self.caches@.len() + 10) as int
    }

    /// How many tokens the session has seen.
    pub open spec fn seen(self) -> int {
        if self.caches@.len() == 0 {
            0
        } else {
            self.caches@[0].position as int
        }
    }

    /// The buffers exist at their sizes, one after another, and every layer
    /// has seen the same tokens.
    pub open spec fn fits(self, plan: Plan) -> bool {
        &&& self.first + self.span() <= plan.values().len()
        &&& self.scratch.norm == self.first + 2 * self.caches@.len()
        &&& self.scratch.fits(plan)
        &&& forall|i: int|
            0 <= i < self.caches@.len() ==> {
                let cache = #[trigger] self.caches@[i];
                &&& cache.k == self.first + 2 * i
                &&& cache.v == self.first + 2 * i + 1
                &&& cache.fits(plan)
                &&& cache.max_seq_len == self.max_seq_len
                &&& cache.position == self.seen()
            }
    }

    /// The keys and values each layer has cached.
    pub open spec fn contents(self, plan: Plan) -> Seq<(Term, Term)> {
        self.caches@.map_values(
            |cache: ChatterboxT3KvCache|
                (plan.values()[cache.k as int], plan.values()[cache.v as int]),
        )
    }

    /// How many tokens the session has seen.
    pub fn position(&self) -> (n: usize)
        ensures
            n == self.seen(),
    {
        if self.caches.len() == 0 {
            0
        } else {
            self.caches[0].position
        }
    }

    /// Forgets every token.
    pub fn reset(&mut self)
        ensures
            final(self).seen() == 0,
            final(self).scratch == old(self).scratch,
            final(self).max_seq_len == old(self).max_seq_len,
            final(self).first == old(self).first,
            final(self).caches@.len() == old(self).caches@.len(),
            forall|i: int|
                0 <= i < old(self).caches@.len() ==> #[trigger] final(self).caches@[i] == (
                ChatterboxT3KvCache { position: 0, ..old(self).caches@[i] }),
    {
        let n: usize = self.caches.len();
        for i in 0..n
            invariant
                n == self.caches@.len(),
                n == old(self).caches@.len(),
                self.scratch == old(self).scratch,
                self.max_seq_len == old(self).max_seq_len,
                self.first == old(self).first,
                forall|j: int|
                    0 <= j < i ==> #[trigger] self.caches@[j] == (ChatterboxT3KvCache {
                        position: 0,
                        ..old(self).caches@[j]
                    }),
                forall|j: int|
                    i <= j < n ==> #[trigger] self.caches@[j] == old(self).caches@[j],
        {
            let mut cache = self.caches[i];
            cache.position = 0;
            self.caches.set(i, cache);
        }
    }
}

/// Caches of `n` layers in which nothing has been stored.
pub open spec fn empty_caches(n: nat, elements: int) -> Seq<(Term, Term)> {
    Seq::new(n, |i: int| (Term::Zeros(elements as nat), Term::Zeros(elements as nat)))
}

/// The stream after the first `n` layers, at position `pos`.
pub open spec fn after_layers(
    weights: Seq<T3Values>,
    factors: Term,
    caches: Seq<(Term, Term)>,
    hidden: Term,
    rows: u32,
    pos: usize,
    n: nat,
) -> Term
    decreases n, 0int,
{
    if n == 0 {
        hidden
    } else {
        layer_step(weights, factors, caches, hidden, rows, pos, (n - 1) as nat).hidden
    }
}

/// What layer `n` makes of the stream and of its own cache.
pub open spec fn layer_step(
    weights: Seq<T3Values>,
    factors: Term,
    caches: Seq<(Term, Term)>,
    hidden: Term,
    rows: u32,
    pos: usize,
    n: nat,
) -> T3State
    decreases n, 1int,
{
    t3_layer(
        weights[n as int],
        factors,
        T3State {
            hidden: after_layers(weights, factors, caches, hidden, rows, pos, n),
            k: caches[n as int].0,
            v: caches[n as int].1,
        },
        rows,
        pos,
    )
}

/// Why a session cannot take `seq_len` more tokens, if it cannot.
pub open spec fn session_fault(
    session: ChatterboxT3Session,
    hidden_len: usize,
    seq_len: usize,
) -> Option<Seq<char>> {
    if seq_len == 0 {
        Some("T3 sequence length must be non-zero"@)
    } else if hidden_len != seq_len * 1024 {
        Some(
            "T3 hidden input has "@ + decimal(hidden_len as nat) + " values, expected "@ + decimal(
                (seq_len * 1024) as nat,
            ),
        )
    } else if session.seen() + seq_len > session.max_seq_len {
        Some(
            "T3 session length "@ + decimal((session.seen() + seq_len) as nat)
                + " exceeds maximum "@ + decimal(session.max_seq_len as nat),
        )
    } else if session.caches@.len() > 0 {
        step_fault(hidden_len, seq_len, session.caches@[0], session.scratch)
    } else {
        None
    }
}

impl ChatterboxT3Transformer {
    /// The weights exist at their full size.
    pub open spec fn fits(self, plan: Plan) -> bool {
        &&& forall|i: int| 0 <= i < self.layers@.len() ==> (#[trigger] self.layers@[i]).fits(plan)
        &&& holds(plan, self.final_norm, 1024)
        &&& holds(plan, self.rope_factors, 32)
    }

    /// None of the weights is one of the `n` buffers from `first`.
    pub open spec fn apart(self, first: usize, n: int) -> bool {
        &&& forall|i: int| 0 <= i < self.layers@.len() ==> (#[trigger] self.layers@[i]).apart(first, n)
        &&& outside(self.final_norm, first, n)
        &&& outside(self.rope_factors, first, n)
    }

    /// The weights of each layer.
    pub open spec fn weights(self, plan: Plan) -> Seq<T3Values> {
        self.layers@.map_values(|layer: ChatterboxT3Layer| layer.values(plan))
    }

    /// Requires the weights of the decoder. The rotary factors are no tensor:
    /// the caller gives them a buffer of 32 values.
    pub fn load(loader: &mut Loader, rope_factors: usize) -> (model: Self)
        requires
            old(loader).wf(),
        ensures
            final(loader).wf(),
            model.rope_factors == rope_factors,
            model.layers@.len() == 30,
            forall|i: int|
                0 <= i < 30 ==> #[trigger] model.layers@[i] == ChatterboxT3Layer::at(
                    old(loader).tensors().len() + 9 * i,
                ),
            model.final_norm == old(loader).tensors().len() + 270,
            final(loader).tensors() == old(loader).tensors() + t3_layers_tensors(30) + seq![
                t3_norm_tensor(),
            ],
    {
        let ghost start = loader.tensors();
        let mut layers: Vec<ChatterboxT3Layer> = Vec::new();
        assert(start + t3_layers_tensors(0) =~= start);
        for i in 0..30usize
            invariant
                loader.wf(),
                layers@.len() == i,
                start == old(loader).tensors(),
                forall|j: int|
                    0 <= j < i ==> #[trigger] layers@[j] == ChatterboxT3Layer::at(
                        start.len() + 9 * j,
                    ),
                loader.tensors() == start + t3_layers_tensors(i as nat),
                loader.tensors().len() == start.len() + 9 * i,
        {
            let prefix = "tfmr.layers.".to_owned().concat(&to_decimal(i as u64));
            let layer = ChatterboxT3Layer::load_prefix(loader, prefix.as_str());
            layers.push(layer);
            assert(loader.tensors() =~= start + t3_layers_tensors((i + 1) as nat));
        }
        let ghost mid = loader.tensors();
        let final_norm: usize = loader.vector(
            "tfmr.norm.weight".to_owned(),
            1024,
            Complaint::labelled("Chatterbox T3 final norm".to_owned()).gone(Absence::NotFound),
        );
        assert(loader.tensors() =~= mid + seq![t3_norm_tensor()]);
        ChatterboxT3Transformer { layers, final_norm, rope_factors }
    }

    /// Runs a single token from the host through the whole stack, at position
    /// zero. The state becomes a given buffer; the result names the buffer of
    /// the normalised state.
    pub fn forward_first_token(&self, plan: &mut Plan, hidden_len: usize) -> (outcome: Result<
        usize,
        String,
    >)
        requires
            old(plan).wf(),
            self.fits(*old(plan)),
        ensures
            final(plan).wf(),
            match outcome {
                Err(message) => {
                    &&& hidden_len != 1024
                    &&& message@ == width_fault(hidden_len)
                    &&& *final(plan) == *old(plan)
                },
                Ok(output) => {
                    &&& hidden_len == 1024
                    &&& sized(*final(plan), output, 1024)
                    &&& extends(*old(plan), *final(plan))
                    &&& final(plan).values()[output as int] == rms_norm_f32in(
                        first_layers(
                            self.weights(*old(plan)),
                            Term::Given(old(plan).steps().len()),
                            self.layers@.len(),
                        ),
                        old(plan).values()[self.final_norm as int],
                        1,
                        1024,
                        Scalar::Single(EPS_1E5),
                    )
                },
            },
    {
        if hidden_len != 1024 {
            return Err(width_complaint(hidden_len));
        }
        let ghost start = *plan;
        let hidden: usize = plan.given(hidden_len);
        let ghost entry = plan.values()[hidden as int];
        let scratch = match ChatterboxT3BatchScratch::allocate(plan, 1) {
            Err(message) => {
                return Err(message);
            },
            Ok(scratch) => scratch,
        };
        let n: usize = self.layers.len();
        for i in 0..n
            invariant
                plan.wf(),
                n == self.layers@.len(),
                self.fits(start),
                extends(start, *plan),
                scratch.fits(*plan),
                scratch.max_tokens == 1,
                hidden == start.values().len(),
                scratch.norm == hidden + 1,
                holds(*plan, hidden, 1024),
                plan.values()[hidden as int] == first_layers(self.weights(start), entry, i as nat),
        {
            let layer = self.layers[i];
            proof {
                assert(self.layers@[i as int].fits(start));
                assert(layer.values(*plan) == layer.values(start));
                assert(self.weights(start)[i as int] == layer.values(start));
            }
            layer.forward_first_token_device(plan, hidden, &scratch);
        }
        plan.rms_norm_f32in(
            hidden,
            self.final_norm,
            scratch.norm,
            1,
            1024,
            Scalar::Single(EPS_1E5),
        );
        Ok(scratch.norm)
    }

    /// Allocates the caches and working buffers of a generation.
    pub fn start_session(&self, plan: &mut Plan, max_seq_len: usize, max_batch_tokens: usize) -> (
    outcome: Result<ChatterboxT3Session, String>)
        requires
            old(plan).wf(),
            1024 * max_seq_len <= usize::MAX,
            4096 * max_batch_tokens <= usize::MAX,
        ensures
            final(plan).wf(),
            extends(*old(plan), *final(plan)),
            match outcome {
                Err(message) => if self.layers@.len() > 0 && max_seq_len == 0 {
                    message@ == "T3 KV capacity must be non-zero"@
                } else {
                    max_batch_tokens == 0 && message@ == "T3 scratch capacity must be non-zero"@
                },
                Ok(session) => {
                    &&& self.layers@.len() > 0 ==> max_seq_len > 0
                    &&& max_batch_tokens > 0
                    &&& session.first == old(plan).values().len()
                    &&& session.caches@.len() == self.layers@.len()
                    &&& session.seen() == 0
                    &&& session.max_seq_len == max_seq_len
                    &&& session.scratch.max_tokens == max_batch_tokens
                    &&& session.fits(*final(plan))
                    &&& session.contents(*final(plan)) == empty_caches(
                        self.layers@.len(),
                        1024 * max_seq_len,
                    )
                    &&& final(plan).values().len() == old(plan).values().len() + session.span()
                    &&& extends(*old(plan), *final(plan))
                },
            },
    {
        let n: usize = self.layers.len();
        let mut caches: Vec<ChatterboxT3KvCache> = Vec::new();
        let ghost start = plan.values().len();
        for i in 0..n
            invariant
                plan.wf(),
                start == old(plan).values().len(),
                n == self.layers@.len(),
                1024 * max_seq_len <= usize::MAX,
                i > 0 ==> max_seq_len > 0,
                caches@.len() == i,
                plan.values().len() == start + 2 * i,
                extends(*old(plan), *plan),
                forall|j: int|
                    0 <= j < i ==> {
                        let cache = #[trigger] caches@[j];
                        &&& cache.k == start + 2 * j
                        &&& cache.v == start + 2 * j + 1
                        &&& cache.fits(*plan)
                        &&& cache.max_seq_len == max_seq_len
                        &&& cache.position == 0
                        &&& plan.values()[cache.k as int] == Term::Zeros(
                            (1024 * max_seq_len) as nat,
                        )
                        &&& plan.values()[cache.v as int] == Term::Zeros(
                            (1024 * max_seq_len) as nat,
                        )
                    },
        {
            match ChatterboxT3KvCache::allocate(plan, max_seq_len) {
                Ok(cache) => {
                    caches.push(cache);
                },
                Err(message) => {
                    return Err(message);
                },
            }
        }
        match ChatterboxT3BatchScratch::allocate(plan, max_batch_tokens) {
            Ok(scratch) => {
                let first: usize = scratch.norm - 2 * n;
                let session = ChatterboxT3Session { caches, scratch, max_seq_len, first };
                assert(session.contents(*plan) =~= empty_caches(
                    self.layers@.len(),
                    1024 * max_seq_len,
                ));
                Ok(session)
            },
            Err(message) => Err(message),
        }
    }
}

/// A layer whose weights lie outside the session's buffers is laid out for
/// its cache, and its weights are what they were at the start.
proof fn lemma_layer_ready(
    start: Plan,
    plan: Plan,
    layer: ChatterboxT3Layer,
    hidden: usize,
    factors: usize,
    cache: ChatterboxT3KvCache,
    scratch: ChatterboxT3BatchScratch,
    first: usize,
    n: int,
    i: int,
)
    requires
        plan.sizes() == start.sizes(),
        plan.values().len() == start.values().len(),
        hidden < start.values().len(),
        0 <= i < n,
        layer.fits(start),
        cache.fits(start),
        scratch.fits(start),
        holds(start, factors, 32),
        first + 2 * n + 10 <= start.values().len(),
        layer.apart(first, 2 * n + 10),
        layer.apart(hidden, 1),
        outside(factors, first, 2 * n + 10),
        factors != hidden,
        outside(hidden, first, 2 * n + 10),
        cache.k == first + 2 * i,
        cache.v == first + 2 * i + 1,
        scratch.norm == first + 2 * n,
        forall|j: int|
            0 <= j < start.values().len() && j != hidden && !(first <= j < first + 2 * n + 10)
                ==> #[trigger] plan.values()[j] == start.values()[j],
    ensures
        laid_out(plan, layer, hidden, factors, cache, scratch),
        layer.values(plan) == layer.values(start),
        plan.values()[factors as int] == start.values()[factors as int],
{
}

impl ChatterboxT3Transformer {
    /// Runs every layer on `seq_len` tokens whose states are in `hidden`.
    fn run_layers(
        &self,
        plan: &mut Plan,
        session: &mut ChatterboxT3Session,
        hidden: usize,
        seq_len: usize,
    ) -> (outcome: Result<(), String>)
        requires
            old(plan).wf(),
            hidden < old(plan).values().len(),
            old(session).fits(*old(plan)),
            self.fits(*old(plan)),
            self.layers@.len() == old(session).caches@.len(),
            self.apart(old(session).first, old(session).span()),
            self.apart(hidden, 1),
            outside(hidden, old(session).first, old(session).span()),
            session_fault(*old(session), old(plan).sizes()[hidden as int], seq_len) is None,
            seq_len * 4096 <= u32::MAX,
        ensures
            outcome is Ok,
            final(plan).wf(),
            final(plan).sizes() == old(plan).sizes(),
            final(plan).values().len() == old(plan).values().len(),
            final(session).fits(*final(plan)),
            final(session).caches@.len() == old(session).caches@.len(),
            final(session).first == old(session).first,
            final(session).scratch == old(session).scratch,
            final(session).max_seq_len == old(session).max_seq_len,
            final(session).caches@.len() > 0 ==> final(session).seen() == old(session).seen()
                + seq_len,
            final(plan).values()[hidden as int] == after_layers(
                self.weights(*old(plan)),
                old(plan).values()[self.rope_factors as int],
                old(session).contents(*old(plan)),
                old(plan).values()[hidden as int],
                seq_len as u32,
                old(session).seen() as usize,
                self.layers@.len(),
            ),
            forall|i: int|
                0 <= i < old(session).caches@.len() ==> {
                    let step = layer_step(
                        self.weights(*old(plan)),
                        old(plan).values()[self.rope_factors as int],
                        old(session).contents(*old(plan)),
                        old(plan).values()[hidden as int],
                        seq_len as u32,
                        old(session).seen() as usize,
                        i as nat,
                    );
                    &&& final(plan).values()[(#[trigger] old(session).caches@[i]).k as int]
                        == step.k
                    &&& final(plan).values()[old(session).caches@[i].v as int] == step.v
                },
            forall|i: int|
                0 <= i < old(plan).values().len() && i != hidden && !(old(session).first <= i
                    < old(session).first + old(session).span())
                    ==> #[trigger] final(plan).values()[i] == old(plan).values()[i],
    {
        let n: usize = self.layers.len();
        let position: usize = session.position();
        let factors: usize = self.rope_factors;
        let ghost start = *plan;
        let ghost caches = session.caches@;
        let ghost rows = seq_len as u32;
        let ghost entry = plan.values()[hidden as int];
        let ghost weights = self.weights(*plan);
        let ghost contents = session.contents(*plan);
        let ghost table = plan.values()[factors as int];
        for i in 0..n
            invariant
                n == self.layers@.len(),
                n == caches.len(),
                factors == self.rope_factors,
                table == start.values()[factors as int],
                caches == old(session).caches@,
                start == *old(plan),
                entry == start.values()[hidden as int],
                weights == self.weights(start),
                contents == old(session).contents(start),
                rows == seq_len,
                start.wf(),
                plan.wf(),
                plan.sizes() == start.sizes(),
                plan.values().len() == start.values().len(),
                hidden < start.values().len(),
                self.fits(start),
                self.apart(session.first, session.span()),
                self.apart(hidden, 1),
                outside(hidden, session.first, session.span()),
                seq_len * 4096 <= u32::MAX,
                seq_len * 1024 <= start.sizes()[hidden as int],
                0 < seq_len,
                n > 0 ==> seq_len <= session.scratch.max_tokens,
                position == old(session).seen(),
                position + seq_len <= session.max_seq_len,
                n > 0 ==> position + seq_len <= u32::MAX,
                session.caches@.len() == n,
                session.first == old(session).first,
                session.scratch == old(session).scratch,
                session.max_seq_len == old(session).max_seq_len,
                session.first + session.span() <= start.values().len(),
                session.scratch.norm == session.first + 2 * n,
                session.scratch.fits(start),
                forall|j: int|
                    0 <= j < n ==> {
                        let cache = #[trigger] caches[j];
                        &&& cache.k == session.first + 2 * j
                        &&& cache.v == session.first + 2 * j + 1
                        &&& cache.fits(start)
                        &&& cache.max_seq_len == session.max_seq_len
                        &&& cache.position == position
                    },
                forall|j: int|
                    0 <= j < i ==> #[trigger] session.caches@[j] == (ChatterboxT3KvCache {
                        position: (position + seq_len) as usize,
                        ..caches[j]
                    }),
                forall|j: int| i <= j < n ==> #[trigger] session.caches@[j] == caches[j],
                plan.values()[hidden as int] == after_layers(
                    weights,
                    table,
                    contents,
                    entry,
                    rows,
                    position,
                    i as nat,
                ),
                forall|j: int|
                    0 <= j < i ==> {
                        let step = layer_step(
                            weights,
                            table,
                            contents,
                            entry,
                            rows,
                            position,
                            j as nat,
                        );
                        &&& plan.values()[(#[trigger] caches[j]).k as int] == step.k
                        &&& plan.values()[caches[j].v as int] == step.v
                    },
                forall|j: int|
                    0 <= j < start.values().len() && j != hidden && !(session.first <= j
                        < session.first + 2 * i) && !(session.scratch.norm <= j
                        < session.scratch.norm + 10) ==> #[trigger] plan.values()[j]
                        == start.values()[j],
        {
            let mut cache = session.caches[i];
            if cache.position != position {
                return Err("T3 layer caches are out of sync".to_owned());
            }
            let layer = self.layers[i];
            proof {
                assert(caches[i as int] == cache);
                assert(layer == self.layers@[i as int]);
                assert(layer.fits(start));
                assert(layer.apart(session.first, session.span()));
                assert(layer.apart(hidden, 1));
                assert(plan.values()[cache.k as int] == start.values()[cache.k as int]);
                assert(plan.values()[cache.v as int] == start.values()[cache.v as int]);
                lemma_layer_ready(
                    start,
                    *plan,
                    layer,
                    hidden,
                    factors,
                    cache,
                    session.scratch,
                    session.first,
                    n as int,
                    i as int,
                );
            }
            let ghost before = *plan;
            let scratch = session.scratch;
            match layer.forward_cached_device(plan, hidden, seq_len, factors, &mut cache, &scratch) {
                Ok(_) => {},
                Err(message) => {
                    return Err(message);
                },
            }
            session.caches.set(i, cache);
            proof {
                assert forall|j: int| 0 <= j < i implies {
                    let step = layer_step(
                        weights,
                        table,
                        contents,
                        entry,
                        rows,
                        position,
                        j as nat,
                    );
                    &&& plan.values()[(#[trigger] caches[j]).k as int] == step.k
                    &&& plan.values()[caches[j].v as int] == step.v
                } by {
                    assert(plan.values()[caches[j].k as int] == before.values()[caches[j].k as int]);
                    assert(plan.values()[caches[j].v as int] == before.values()[caches[j].v as int]);
                }
            }
        }
        Ok(())
    }

    /// Appends `seq_len` prepared embeddings to a session. The embeddings
    /// become a given buffer of `hidden_len` elements; the result names the
    /// buffer whose first `seq_len` rows are the normalised output.
    pub fn forward_session(
        &self,
        plan: &mut Plan,
        session: &mut ChatterboxT3Session,
        hidden_len: usize,
        seq_len: usize,
    ) -> (outcome: Result<usize, String>)
        requires
            old(plan).wf(),
            old(session).fits(*old(plan)),
            self.fits(*old(plan)),
            self.layers@.len() == old(session).caches@.len(),
            self.layers@.len() > 0,
            self.apart(old(session).first, old(session).span()),
            seq_len * 1024 <= usize::MAX,
            old(session).seen() + seq_len <= usize::MAX,
            session_fault(*old(session), hidden_len, seq_len) is None ==> seq_len * 4096
                <= u32::MAX,
        ensures
            final(plan).wf(),
            match outcome {
                Err(message) => {
                    &&& session_fault(*old(session), hidden_len, seq_len) == Some(message@)
                    &&& *final(plan) == *old(plan)
                    &&& *final(session) == *old(session)
                },
                Ok(output) => {
                    let hidden = Term::Given(old(plan).steps().len());
                    &&& session_fault(*old(session), hidden_len, seq_len) is None
                    &&& final(session).fits(*final(plan))
                    &&& final(session).first == old(session).first
                    &&& final(session).scratch == old(session).scratch
                    &&& final(session).max_seq_len == old(session).max_seq_len
                    &&& final(session).caches@.len() == old(session).caches@.len()
                    &&& final(session).seen() == old(session).seen() + seq_len
                    &&& holds(*final(plan), output, seq_len * 1024)
                    &&& final(plan).values()[output as int] == rms_norm_f32in(
                        after_layers(
                            self.weights(*old(plan)),
                            old(plan).values()[self.rope_factors as int],
                            old(session).contents(*old(plan)),
                            hidden,
                            seq_len as u32,
                            old(session).seen() as usize,
                            self.layers@.len(),
                        ),
                        old(plan).values()[self.final_norm as int],
                        seq_len as u32,
                        1024,
                        Scalar::Single(EPS_1E5),
                    )
                    &&& forall|i: int|
                        0 <= i < old(session).caches@.len() ==> {
                            let step = layer_step(
                                self.weights(*old(plan)),
                                old(plan).values()[self.rope_factors as int],
                                old(session).contents(*old(plan)),
                                hidden,
                                seq_len as u32,
                                old(session).seen() as usize,
                                i as nat,
                            );
                            &&& final(plan).values()[(#[trigger] old(session).caches@[i]).k as int]
                                == step.k
                            &&& final(plan).values()[old(session).caches@[i].v as int] == step.v
                        }
                    &&& forall|i: int|
                        0 <= i < old(plan).values().len() && !(old(session).first <= i
                            < old(session).first + old(session).span())
                            ==> #[trigger] final(plan).values()[i] == old(plan).values()[i]
                    &&& forall|i: int|
                        0 <= i < old(plan).values().len() ==> #[trigger] final(plan).sizes()[i]
                            == old(plan).sizes()[i]
                },
            },
    {
        if seq_len == 0 {
            return Err("T3 sequence length must be non-zero".to_owned());
        }
        if hidden_len != seq_len * 1024 {
            return Err(
                "T3 hidden input has ".to_owned().concat(&to_decimal(hidden_len as u64)).concat(
                    " values, expected ",
                ).concat(&to_decimal((seq_len * 1024) as u64)),
            );
        }
        let position: usize = session.position();
        if position + seq_len > session.max_seq_len {
            return Err(
                "T3 session length ".to_owned().concat(
                    &to_decimal((position + seq_len) as u64),
                ).concat(" exceeds maximum ").concat(&to_decimal(session.max_seq_len as u64)),
            );
        }
        if seq_len > session.scratch.max_tokens {
            return Err(
                "T3 sequence has ".to_owned().concat(&to_decimal(seq_len as u64)).concat(
                    " tokens, scratch holds ",
                ).concat(&to_decimal(session.scratch.max_tokens as u64)),
            );
        }
        if seq_len > u32::MAX as usize {
            return Err("T3 sequence exceeds CUDA limits".to_owned());
        }
        if position > u32::MAX as usize {
            return Err("T3 position exceeds CUDA limits".to_owned());
        }
        if position + seq_len > u32::MAX as usize {
            return Err("T3 KV length exceeds CUDA limits".to_owned());
        }
        let ghost start = *plan;
        let hidden: usize = plan.given(hidden_len);
        let ghost ready = *plan;
        proof {
            lemma_extended(start, ready, *self, *session);
        }
        match self.run_layers(plan, session, hidden, seq_len) {
            Ok(_) => {},
            Err(message) => {
                return Err(message);
            },
        }
        let norm: usize = session.scratch.norm;
        assert(session.scratch.fits(*plan));
        assert(plan.sizes()[norm as int] >= 1024 * session.scratch.max_tokens);
        plan.rms_norm_f32in(
            hidden,
            self.final_norm,
            norm,
            seq_len as u32,
            1024,
            Scalar::Single(EPS_1E5),
        );
        Ok(norm)
    }
}

/// A plan with one more given buffer still holds the model and the session.
proof fn lemma_extended(
    start: Plan,
    ready: Plan,
    model: ChatterboxT3Transformer,
    session: ChatterboxT3Session,
)
    requires
        start.wf(),
        ready.wf(),
        extends(start, ready),
        session.fits(start),
        model.fits(start),
    ensures
        session.fits(ready),
        model.fits(ready),
        model.weights(ready) == model.weights(start),
        session.contents(ready) == session.contents(start),
{
    assert forall|i: int| 0 <= i < model.layers@.len() implies #[trigger] model.layers@[i].values(
        ready,
    ) == model.layers@[i].values(start) && model.layers@[i].fits(ready) by {
        assert(model.layers@[i].fits(start));
    }
    assert(model.weights(ready) =~= model.weights(start));
    assert(session.scratch.fits(ready)) by {
        assert forall|i: int|
            session.scratch.norm <= i < session.scratch.norm + 6 || i == session.scratch.norm
                + 9 implies 1024 * session.scratch.max_tokens <= #[trigger] ready.sizes()[i] by {
            assert(start.sizes()[i] >= 1024 * session.scratch.max_tokens);
        }
        assert forall|i: int|
            session.scratch.norm + 6 <= i < session.scratch.norm + 9 implies 4096
            * session.scratch.max_tokens <= #[trigger] ready.sizes()[i] by {
            assert(start.sizes()[i] >= 4096 * session.scratch.max_tokens);
        }
    }
    assert forall|i: int| 0 <= i < session.caches@.len() implies #[trigger] session.caches@[i].fits(
        ready,
    ) by {
        assert(session.caches@[i].fits(start));
    }
    assert forall|i: int| 0 <= i < session.caches@.len() implies session.contents(ready)[i]
        == session.contents(start)[i] by {
        assert(session.caches@[i].fits(start));
    }
    assert(session.contents(ready) =~= session.contents(start));
}

impl ChatterboxT3Layer {
    /// Loaded weights exist at their full size.
    pub proof fn law_loaded_weights_fit(plan: Plan, base: int, prefix: Seq<char>)
        requires
            stores(plan, base, t3_layer_tensors(prefix)),
        ensures
            Self::at(base).fits(plan),
    {
        let tensors = t3_layer_tensors(prefix);
        lemma_stored1(plan, base, tensors, 0, 1024);
        lemma_stored2(plan, base, tensors, 1, 1024, 1024);
        lemma_stored2(plan, base, tensors, 2, 1024, 1024);
        lemma_stored2(plan, base, tensors, 3, 1024, 1024);
        lemma_stored2(plan, base, tensors, 4, 1024, 1024);
        lemma_stored1(plan, base, tensors, 5, 1024);
        lemma_stored2(plan, base, tensors, 6, 4096, 1024);
        lemma_stored2(plan, base, tensors, 7, 4096, 1024);
        lemma_stored2(plan, base, tensors, 8, 1024, 4096);
    }
}

} // verus!
