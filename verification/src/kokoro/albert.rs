//! The text backbone: one transformer layer applied over and over.
use vstd::prelude::*;
use vstd::string::*;
use crate::device::{EPS_1E12, Plan, Scalar, Term, extends, holds};
use crate::device::compound::{
    linear, run_linear, run_sum, run_widened_norm, widened_norm,
};
use crate::device::value::{
    add_f16, embed_tokens_f32, gelu_erf_f16, layer_norm_f32in, mha_naive_full,
};
use crate::kokoro::checkpoint::{
    Linear, fixed, fixed_complaint, full_name, linear_tensors, shown, shown_vector, to_full_name,
};
use crate::kokoro::config::KokoroConfig;
use crate::weights::{
    Absence, Loader, Tensor, lemma_stored1, lemma_stored2, lemma_stores_split, stores,
};

verus! {

/// The backbone, as buffers.
#[derive(Clone, Copy, Debug, PartialEq, Eq, Structural)]
pub struct KokoroAlbert {
    pub word_embeddings: usize,
    pub position_embeddings: usize,
    pub token_type_embeddings: usize,
    pub embedding_norm_weight: usize,
    pub embedding_norm_bias: usize,
    pub embedding_projection: Linear,
    pub query: Linear,
    pub key: Linear,
    pub value: Linear,
    pub attention_output: Linear,
    pub attention_norm_weight: usize,
    pub attention_norm_bias: usize,
    pub ffn: Linear,
    pub ffn_output: Linear,
    pub final_norm_weight: usize,
    pub final_norm_bias: usize,
    pub output_projection: Linear,
    /// How many tokens there are.
    pub vocabulary: usize,
    /// How many positions have an embedding.
    pub context: usize,
    /// How often the layer is applied.
    pub passes: usize,
}

/// The geometry that the layer is written for.
pub open spec fn supported(config: KokoroConfig) -> bool {
    config.plbert.hidden_size == 768 && config.plbert.num_attention_heads == 12
        && config.plbert.intermediate_size == 2048
}

/// The tensors of the backbone.
pub open spec fn albert_tensors(config: KokoroConfig) -> Seq<Tensor> {
    seq![
        fixed(
            full_name("bert"@, "module.embeddings.word_embeddings.weight"@),
            seq![config.n_token, 128],
            "invalid ALBERT word embeddings"@,
        ).before(2),
        fixed(
            full_name("bert"@, "module.embeddings.position_embeddings.weight"@),
            seq![config.plbert.max_position_embeddings, 128],
            "invalid ALBERT position embeddings"@,
        ).before(1),
        fixed(
            full_name("bert"@, "module.embeddings.token_type_embeddings.weight"@),
            seq![2, 128],
            "invalid ALBERT token-type embeddings"@,
        ),
    ] + seq![shown("bert"@, "module.embeddings.LayerNorm.weight"@, seq![128]).gone(Absence::Unloaded)]
        + seq![shown("bert"@, "module.embeddings.LayerNorm.bias"@, seq![128]).gone(Absence::Unloaded)]
        + linear_tensors("bert"@, "module.encoder.embedding_hidden_mapping_in"@, 128, 768)
        + linear_tensors("bert"@, "module.encoder.albert_layer_groups.0.albert_layers.0.attention.query"@, 768, 768)
        + linear_tensors("bert"@, "module.encoder.albert_layer_groups.0.albert_layers.0.attention.key"@, 768, 768)
        + linear_tensors("bert"@, "module.encoder.albert_layer_groups.0.albert_layers.0.attention.value"@, 768, 768)
        + linear_tensors("bert"@, "module.encoder.albert_layer_groups.0.albert_layers.0.attention.dense"@, 768, 768)
        + seq![shown("bert"@, "module.encoder.albert_layer_groups.0.albert_layers.0.attention.LayerNorm.weight"@, seq![768]).gone(Absence::Unloaded)]
        + seq![shown("bert"@, "module.encoder.albert_layer_groups.0.albert_layers.0.attention.LayerNorm.bias"@, seq![768]).gone(Absence::Unloaded)]
        + linear_tensors("bert"@, "module.encoder.albert_layer_groups.0.albert_layers.0.ffn"@, 768, 2048)
        + linear_tensors("bert"@, "module.encoder.albert_layer_groups.0.albert_layers.0.ffn_output"@, 2048, 768)
        + seq![shown("bert"@, "module.encoder.albert_layer_groups.0.albert_layers.0.full_layer_layer_norm.weight"@, seq![768]).gone(Absence::Unloaded)]
        + seq![shown("bert"@, "module.encoder.albert_layer_groups.0.albert_layers.0.full_layer_layer_norm.bias"@, seq![768]).gone(Absence::Unloaded)] + linear_tensors(
        "bert_encoder"@,
        "module"@,
        768,
        config.hidden_dim,
    )
}

impl KokoroAlbert {
    /// The backbone whose first tensor is buffer `base`.
    pub open spec fn at(base: int, config: KokoroConfig) -> Self {
        KokoroAlbert {
            word_embeddings: base as usize,
            position_embeddings: (base + 1) as usize,
            token_type_embeddings: (base + 2) as usize,
            embedding_norm_weight: (base + 3) as usize,
            embedding_norm_bias: (base + 4) as usize,
            embedding_projection: Linear::at(base + 5),
            query: Linear::at(base + 7),
            key: Linear::at(base + 9),
            value: Linear::at(base + 11),
            attention_output: Linear::at(base + 13),
            attention_norm_weight: (base + 15) as usize,
            attention_norm_bias: (base + 16) as usize,
            ffn: Linear::at(base + 17),
            ffn_output: Linear::at(base + 19),
            final_norm_weight: (base + 21) as usize,
            final_norm_bias: (base + 22) as usize,
            output_projection: Linear::at(base + 23),
            vocabulary: config.n_token,
            context: config.plbert.max_position_embeddings,
            passes: config.plbert.num_hidden_layers,
        }
    }

    /// The weights exist at their full size.
    pub open spec fn fits(self, plan: Plan) -> bool {
        &&& holds(plan, self.word_embeddings, self.vocabulary * 128)
        &&& holds(plan, self.position_embeddings, self.context * 128)
        &&& holds(plan, self.token_type_embeddings, 256)
        &&& holds(plan, self.embedding_norm_weight, 128)
        &&& holds(plan, self.embedding_norm_bias, 128)
        &&& self.embedding_projection.fits(plan, 128, 768)
        &&& self.query.fits(plan, 768, 768)
        &&& self.key.fits(plan, 768, 768)
        &&& self.value.fits(plan, 768, 768)
        &&& self.attention_output.fits(plan, 768, 768)
        &&& holds(plan, self.attention_norm_weight, 768)
        &&& holds(plan, self.attention_norm_bias, 768)
        &&& self.ffn.fits(plan, 768, 2048)
        &&& self.ffn_output.fits(plan, 2048, 768)
        &&& holds(plan, self.final_norm_weight, 768)
        &&& holds(plan, self.final_norm_bias, 768)
        &&& self.output_projection.fits(plan, 768, 512)
    }

    /// Requires the tensors of the backbone.
    pub fn load(loader: &mut Loader, config: &KokoroConfig) -> (outcome: Result<Self, String>)
        requires
            old(loader).wf(),
            config.n_token * 128 <= usize::MAX,
            config.plbert.max_position_embeddings * 128 <= usize::MAX,
            config.hidden_dim * 768 <= usize::MAX,
        ensures
            final(loader).wf(),
            outcome is Ok <==> supported(*config),
            match outcome {
                Err(message) => message@ == "unsupported Kokoro ALBERT geometry"@ && *final(loader)
                    == *old(loader),
                Ok(model) => {
                    &&& model == Self::at(old(loader).tensors().len() as int, *config)
                    &&& final(loader).tensors() == old(loader).tensors() + albert_tensors(*config)
                    &&& final(loader).tensors().len() == old(loader).tensors().len() + 25
                },
            },
    {
        if !(config.plbert.hidden_size == 768 && config.plbert.num_attention_heads == 12
            && config.plbert.intermediate_size == 2048) {
            return Err("unsupported Kokoro ALBERT geometry".to_owned());
        }
        let ghost before = loader.tensors();
        let word_embeddings: usize = loader.matrix(
            to_full_name("bert", "module.embeddings.word_embeddings.weight"),
            config.n_token,
            128,
            fixed_complaint("invalid ALBERT word embeddings").before(2),
        );
        let position_embeddings: usize = loader.matrix(
            to_full_name("bert", "module.embeddings.position_embeddings.weight"),
            config.plbert.max_position_embeddings,
            128,
            fixed_complaint("invalid ALBERT position embeddings").before(1),
        );
        let token_type_embeddings: usize = loader.matrix(
            to_full_name("bert", "module.embeddings.token_type_embeddings.weight"),
            2,
            128,
            fixed_complaint("invalid ALBERT token-type embeddings"),
        );
        let embedding_norm_weight: usize = shown_vector(
            loader,
            "bert",
            "module.embeddings.LayerNorm.weight",
            Absence::Unloaded,
            128,
        );
        let embedding_norm_bias: usize = shown_vector(
            loader,
            "bert",
            "module.embeddings.LayerNorm.bias",
            Absence::Unloaded,
            128,
        );
        let embedding_projection = Linear::load(
            loader,
            "bert",
            "module.encoder.embedding_hidden_mapping_in",
            128,
            768,
        );
        let query = Linear::load(
            loader,
            "bert",
            "module.encoder.albert_layer_groups.0.albert_layers.0.attention.query",
            768,
            768,
        );
        let key = Linear::load(
            loader,
            "bert",
            "module.encoder.albert_layer_groups.0.albert_layers.0.attention.key",
            768,
            768,
        );
        let value = Linear::load(
            loader,
            "bert",
            "module.encoder.albert_layer_groups.0.albert_layers.0.attention.value",
            768,
            768,
        );
        let attention_output = Linear::load(
            loader,
            "bert",
            "module.encoder.albert_layer_groups.0.albert_layers.0.attention.dense",
            768,
            768,
        );
        let attention_norm_weight: usize = shown_vector(
            loader,
            "bert",
            "module.encoder.albert_layer_groups.0.albert_layers.0.attention.LayerNorm.weight",
            Absence::Unloaded,
            768,
        );
        let attention_norm_bias: usize = shown_vector(
            loader,
            "bert",
            "module.encoder.albert_layer_groups.0.albert_layers.0.attention.LayerNorm.bias",
            Absence::Unloaded,
            768,
        );
        let ffn = Linear::load(
            loader,
            "bert",
            "module.encoder.albert_layer_groups.0.albert_layers.0.ffn",
            768,
            2048,
        );
        let ffn_output = Linear::load(
            loader,
            "bert",
            "module.encoder.albert_layer_groups.0.albert_layers.0.ffn_output",
            2048,
            768,
        );
        let final_norm_weight: usize = shown_vector(
            loader,
            "bert",
            "module.encoder.albert_layer_groups.0.albert_layers.0.full_layer_layer_norm.weight",
            Absence::Unloaded,
            768,
        );
        let final_norm_bias: usize = shown_vector(
            loader,
            "bert",
            "module.encoder.albert_layer_groups.0.albert_layers.0.full_layer_layer_norm.bias",
            Absence::Unloaded,
            768,
        );
        let output_projection = Linear::load(
            loader,
            "bert_encoder",
            "module",
            768,
            config.hidden_dim,
        );
        assert(loader.tensors() =~= before + albert_tensors(*config));
        Ok(
            KokoroAlbert {
                word_embeddings,
                position_embeddings,
                token_type_embeddings,
                embedding_norm_weight,
                embedding_norm_bias,
                embedding_projection,
                query,
                key,
                value,
                attention_output,
                attention_norm_weight,
                attention_norm_bias,
                ffn,
                ffn_output,
                final_norm_weight,
                final_norm_bias,
                output_projection,
                vocabulary: config.n_token,
                context: config.plbert.max_position_embeddings,
                passes: config.plbert.num_hidden_layers,
            },
        )
    }
}

/// The value of a linear map.
pub open spec fn apply(v: Seq<Term>, map: Linear, x: Term, rows: u32, input: u32, output: u32) -> Term {
    linear(x, v[map.weight as int], v[map.bias as int], rows, output, input)
}

/// Attention of the layer: its rows before they are added back.
pub open spec fn attended(w: KokoroAlbert, v: Seq<Term>, hidden: Term, tokens: u32) -> Term {
    apply(
        v,
        w.attention_output,
        mha_naive_full(
            apply(v, w.query, hidden, tokens, 768, 768),
            apply(v, w.key, hidden, tokens, 768, 768),
            apply(v, w.value, hidden, tokens, 768, 768),
            64,
            12,
            12,
            tokens,
            tokens,
            Scalar::InverseSqrt(64),
            Scalar::Single(0),
        ),
        tokens,
        768,
        768,
    )
}

/// The sum of two sets of rows, normalised.
pub open spec fn residual_norm(a: Term, b: Term, weight: Term, bias: Term, tokens: u32) -> Term {
    widened_norm(
        add_f16(a, b, (tokens * 768) as u32),
        weight,
        bias,
        tokens,
        768,
        Scalar::Single(EPS_1E12),
    )
}

/// The hidden rows after one application of the layer.
#[verifier::opaque]
pub open spec fn layer_output(w: KokoroAlbert, v: Seq<Term>, hidden: Term, tokens: u32) -> Term {
    let middle = residual_norm(
        hidden,
        attended(w, v, hidden, tokens),
        v[w.attention_norm_weight as int],
        v[w.attention_norm_bias as int],
        tokens,
    );
    residual_norm(
        middle,
        apply(
            v,
            w.ffn_output,
            gelu_erf_f16(apply(v, w.ffn, middle, tokens, 768, 2048), (tokens * 2048) as u32),
            tokens,
            2048,
            768,
        ),
        v[w.final_norm_weight as int],
        v[w.final_norm_bias as int],
        tokens,
    )
}

/// The hidden rows after `n` applications of the layer.
pub open spec fn layers_output(w: KokoroAlbert, v: Seq<Term>, hidden: Term, tokens: u32, n: nat) -> Term
    decreases n,
{
    if n == 0 {
        hidden
    } else {
        layer_output(w, v, layers_output(w, v, hidden, tokens, (n - 1) as nat), tokens)
    }
}

/// Runs a linear map. The result names a fresh buffer.
fn run_map(
    plan: &mut Plan,
    map: Linear,
    x: usize,
    rows: u32,
    input: u32,
    output: u32,
    Ghost(start): Ghost<Plan>,
) -> (out: usize)
    requires
        old(plan).wf(),
        extends(start, *old(plan)),
        map.fits(start, input as usize, output as usize),
        holds(*old(plan), x, rows * input),
        rows * output <= usize::MAX,
    ensures
        final(plan).wf(),
        extends(*old(plan), *final(plan)),
        out == old(plan).values().len(),
        final(plan).values().len() == out + 1,
        final(plan).sizes()[out as int] == rows * output,
        final(plan).values()[out as int] == apply(
            start.values(),
            map,
            old(plan).values()[x as int],
            rows,
            input,
            output,
        ),
{
    run_linear(plan, x, map.weight, map.bias, rows, output, input)
}

/// Adds two sets of rows and normalises them. The result names a fresh buffer.
fn run_residual_norm(
    plan: &mut Plan,
    a: usize,
    b: usize,
    weight: usize,
    bias: usize,
    tokens: u32,
) -> (out: usize)
    requires
        old(plan).wf(),
        tokens * 768 <= u32::MAX,
        holds(*old(plan), a, tokens * 768),
        holds(*old(plan), b, tokens * 768),
        holds(*old(plan), weight, 768),
        holds(*old(plan), bias, 768),
    ensures
        final(plan).wf(),
        extends(*old(plan), *final(plan)),
        old(plan).values().len() <= out < final(plan).values().len(),
        final(plan).sizes()[out as int] == tokens * 768,
        final(plan).values()[out as int] == residual_norm(
            old(plan).values()[a as int],
            old(plan).values()[b as int],
            old(plan).values()[weight as int],
            old(plan).values()[bias as int],
            tokens,
        ),
{
    let sum: usize = run_sum(plan, a, b, tokens * 768);
    run_widened_norm(plan, sum, weight, bias, tokens, 768, Scalar::Single(EPS_1E12))
}

/// Why tokens cannot be encoded, if they cannot.
pub open spec fn albert_fault(w: KokoroAlbert, ids: Seq<usize>) -> Option<Seq<char>> {
    if ids.len() == 0 {
        Some("Kokoro ALBERT input is empty"@)
    } else if exists|i: int| 0 <= i < ids.len() && #[trigger] ids[i] >= w.vocabulary {
        Some("Kokoro ALBERT token is outside vocabulary"@)
    } else if ids.len() > w.context {
        Some("Kokoro ALBERT sequence exceeds position embeddings"@)
    } else {
        None
    }
}

/// Whether every token is below a limit.
pub fn all_below(ids: &[usize], limit: usize) -> (below: bool)
    ensures
        below == !exists|i: int| 0 <= i < ids@.len() && #[trigger] ids@[i] >= limit,
{
    for i in 0..ids.len()
        invariant
            forall|j: int| 0 <= j < i ==> #[trigger] ids@[j] < limit,
    {
        if ids[i] >= limit {
            assert(ids@[i as int] >= limit);
            return false;
        }
    }
    true
}

/// Token numbers as they are uploaded.
pub open spec fn uploaded(ids: Seq<usize>) -> Seq<i32> {
    Seq::new(ids.len(), |i: int| ids[i] as i32)
}

/// Token numbers as they are uploaded.
pub fn to_uploaded(ids: &[usize]) -> (out: Vec<i32>)
    requires
        forall|i: int| 0 <= i < ids@.len() ==> #[trigger] ids@[i] <= i32::MAX,
    ensures
        out@ == uploaded(ids@),
{
    let mut out: Vec<i32> = Vec::new();
    for i in 0..ids.len()
        invariant
            forall|j: int| 0 <= j < ids@.len() ==> #[trigger] ids@[j] <= i32::MAX,
            out@.len() == i,
            forall|j: int| 0 <= j < i ==> #[trigger] out@[j] == ids@[j] as i32,
    {
        out.push(ids[i] as i32);
    }
    assert(out@ =~= uploaded(ids@));
    out
}

/// The hidden rows that the layers start from.
pub open spec fn embedded(w: KokoroAlbert, v: Seq<Term>, ids: Seq<usize>) -> Term {
    let tokens = ids.len() as u32;
    apply(
        v,
        w.embedding_projection,
        layer_norm_f32in(
            embed_tokens_f32(
                v[w.word_embeddings as int],
                v[w.position_embeddings as int],
                v[w.token_type_embeddings as int],
                Term::Integers(uploaded(ids)),
                tokens,
                128,
            ),
            v[w.embedding_norm_weight as int],
            v[w.embedding_norm_bias as int],
            tokens,
            128,
            Scalar::Single(EPS_1E12),
        ),
        tokens,
        128,
        768,
    )
}

/// The rows that tokens are encoded as.
pub open spec fn encoded(w: KokoroAlbert, v: Seq<Term>, ids: Seq<usize>) -> Term {
    let tokens = ids.len() as u32;
    apply(
        v,
        w.output_projection,
        layers_output(w, v, embedded(w, v, ids), tokens, w.passes as nat),
        tokens,
        768,
        512,
    )
}

impl KokoroAlbert {
    /// Applies the layer once. The result names a fresh buffer.
    fn layer(&self, plan: &mut Plan, hidden: usize, tokens: u32, Ghost(start): Ghost<Plan>) -> (out:
        usize)
        requires
            old(plan).wf(),
            extends(start, *old(plan)),
            self.fits(start),
            holds(*old(plan), hidden, tokens * 768),
            tokens * 2048 <= u32::MAX,
        ensures
            final(plan).wf(),
            extends(*old(plan), *final(plan)),
            out < final(plan).values().len(),
            final(plan).sizes()[out as int] == tokens * 768,
            final(plan).values()[out as int] == layer_output(
                *self,
                start.values(),
                old(plan).values()[hidden as int],
                tokens,
            ),
    {
        reveal(layer_output);
        let q: usize = run_map(plan, self.query, hidden, tokens, 768, 768, Ghost(start));
        let k: usize = run_map(plan, self.key, hidden, tokens, 768, 768, Ghost(start));
        let v: usize = run_map(plan, self.value, hidden, tokens, 768, 768, Ghost(start));
        let attention: usize = plan.zeros(tokens as usize * 768);
        proof {
            assert(tokens * 12 * 64 == tokens * 768) by (nonlinear_arith);
        }
        plan.mha_naive_full(
            q,
            k,
            v,
            attention,
            64,
            12,
            12,
            tokens,
            tokens,
            Scalar::InverseSqrt(64),
            Scalar::Single(0),
        );
        let attended_rows: usize = run_map(
            plan,
            self.attention_output,
            attention,
            tokens,
            768,
            768,
            Ghost(start),
        );
        let middle: usize = run_residual_norm(
            plan,
            hidden,
            attended_rows,
            self.attention_norm_weight,
            self.attention_norm_bias,
            tokens,
        );
        let inner: usize = run_map(plan, self.ffn, middle, tokens, 768, 2048, Ghost(start));
        let activated: usize = plan.zeros(tokens as usize * 2048);
        plan.gelu_erf_f16(inner, activated, tokens * 2048);
        let outer: usize = run_map(
            plan,
            self.ffn_output,
            activated,
            tokens,
            2048,
            768,
            Ghost(start),
        );
        run_residual_norm(
            plan,
            middle,
            outer,
            self.final_norm_weight,
            self.final_norm_bias,
            tokens,
        )
    }

    /// Encodes tokens as rows of 512 values.
    pub fn encode(&self, plan: &mut Plan, ids: &[usize]) -> (outcome: Result<usize, String>)
        requires
            old(plan).wf(),
            self.fits(*old(plan)),
            self.vocabulary <= i32::MAX,
            ids@.len() * 2048 <= u32::MAX,
        ensures
            final(plan).wf(),
            outcome is Ok <==> albert_fault(*self, ids@) is None,
            match outcome {
                Err(message) => albert_fault(*self, ids@) == Some(message@) && *final(plan) == *old(
                    plan,
                ),
                Ok(rows) => {
                    &&& extends(*old(plan), *final(plan))
                    &&& rows < final(plan).values().len()
                    &&& final(plan).sizes()[rows as int] == ids@.len() * 512
                    &&& final(plan).values()[rows as int] == encoded(
                        *self,
                        old(plan).values(),
                        ids@,
                    )
                },
            },
    {
        if ids.len() == 0 {
            return Err("Kokoro ALBERT input is empty".to_owned());
        }
        if !all_below(ids, self.vocabulary) {
            return Err("Kokoro ALBERT token is outside vocabulary".to_owned());
        }
        if ids.len() > self.context {
            return Err("Kokoro ALBERT sequence exceeds position embeddings".to_owned());
        }
        let ghost start = *plan;
        let tokens: u32 = ids.len() as u32;
        let numbers: usize = plan.upload(to_uploaded(ids).as_slice());
        let sums: usize = plan.zeros(tokens as usize * 128);
        plan.embed_tokens_f32(
            self.word_embeddings,
            self.position_embeddings,
            self.token_type_embeddings,
            numbers,
            sums,
            tokens,
            128,
        );
        let normalized: usize = plan.zeros(tokens as usize * 128);
        plan.layer_norm_f32in(
            sums,
            self.embedding_norm_weight,
            self.embedding_norm_bias,
            normalized,
            tokens,
            128,
            Scalar::Single(EPS_1E12),
        );
        let mut hidden: usize = run_map(
            plan,
            self.embedding_projection,
            normalized,
            tokens,
            128,
            768,
            Ghost(start),
        );
        for pass in 0..self.passes
            invariant
                plan.wf(),
                extends(start, *plan),
                self.fits(start),
                tokens == ids@.len(),
                tokens * 2048 <= u32::MAX,
                hidden < plan.values().len(),
                plan.sizes()[hidden as int] == tokens * 768,
                plan.values()[hidden as int] == layers_output(
                    *self,
                    start.values(),
                    embedded(*self, start.values(), ids@),
                    tokens,
                    pass as nat,
                ),
        {
            hidden = self.layer(plan, hidden, tokens, Ghost(start));
        }
        Ok(run_map(plan, self.output_projection, hidden, tokens, 768, 512, Ghost(start)))
    }
}

proof fn lemma_layers_at(w: KokoroAlbert, a: Plan, b: Plan, hidden: Term, tokens: u32, n: nat)
    requires
        extends(a, b),
        w.fits(a),
    ensures
        layers_output(w, a.values(), hidden, tokens, n) == layers_output(
            w,
            b.values(),
            hidden,
            tokens,
            n,
        ),
    decreases n,
{
    if n > 0 {
        lemma_layers_at(w, a, b, hidden, tokens, (n - 1) as nat);
        reveal(layer_output);
    }
}

/// A longer plan with the same weights encodes tokens alike.
pub proof fn lemma_encoded_at(w: KokoroAlbert, a: Plan, b: Plan, ids: Seq<usize>)
    requires
        extends(a, b),
        w.fits(a),
    ensures
        encoded(w, a.values(), ids) == encoded(w, b.values(), ids),
{
    lemma_layers_at(
        w,
        a,
        b,
        embedded(w, a.values(), ids),
        ids.len() as u32,
        w.passes as nat,
    );
}

impl KokoroAlbert {
    /// Loaded weights exist at their full size.
    pub proof fn law_loaded_weights_fit(plan: Plan, base: int, config: KokoroConfig)
        requires
            stores(plan, base, albert_tensors(config)),
            config.hidden_dim >= 512,
        ensures
            Self::at(base, config).fits(plan),
    {
        let t0 = seq![
            fixed(
                full_name("bert"@, "module.embeddings.word_embeddings.weight"@),
                seq![config.n_token, 128],
                "invalid ALBERT word embeddings"@,
            ).before(2),
            fixed(
                full_name("bert"@, "module.embeddings.position_embeddings.weight"@),
                seq![config.plbert.max_position_embeddings, 128],
                "invalid ALBERT position embeddings"@,
            ).before(1),
            fixed(
                full_name("bert"@, "module.embeddings.token_type_embeddings.weight"@),
                seq![2, 128],
                "invalid ALBERT token-type embeddings"@,
            ),
        ];
        let p1 = seq![shown("bert"@, "module.embeddings.LayerNorm.weight"@, seq![128]).gone(Absence::Unloaded)];
        let t1 = t0 + p1;
        let p2 = seq![shown("bert"@, "module.embeddings.LayerNorm.bias"@, seq![128]).gone(Absence::Unloaded)];
        let t2 = t1 + p2;
        let p3 = linear_tensors("bert"@, "module.encoder.embedding_hidden_mapping_in"@, 128, 768);
        let t3 = t2 + p3;
        let p4 = linear_tensors("bert"@, "module.encoder.albert_layer_groups.0.albert_layers.0.attention.query"@, 768, 768);
        let t4 = t3 + p4;
        let p5 = linear_tensors("bert"@, "module.encoder.albert_layer_groups.0.albert_layers.0.attention.key"@, 768, 768);
        let t5 = t4 + p5;
        let p6 = linear_tensors("bert"@, "module.encoder.albert_layer_groups.0.albert_layers.0.attention.value"@, 768, 768);
        let t6 = t5 + p6;
        let p7 = linear_tensors("bert"@, "module.encoder.albert_layer_groups.0.albert_layers.0.attention.dense"@, 768, 768);
        let t7 = t6 + p7;
        let p8 = seq![shown("bert"@, "module.encoder.albert_layer_groups.0.albert_layers.0.attention.LayerNorm.weight"@, seq![768]).gone(Absence::Unloaded)];
        let t8 = t7 + p8;
        let p9 = seq![shown("bert"@, "module.encoder.albert_layer_groups.0.albert_layers.0.attention.LayerNorm.bias"@, seq![768]).gone(Absence::Unloaded)];
        let t9 = t8 + p9;
        let p10 = linear_tensors("bert"@, "module.encoder.albert_layer_groups.0.albert_layers.0.ffn"@, 768, 2048);
        let t10 = t9 + p10;
        let p11 = linear_tensors("bert"@, "module.encoder.albert_layer_groups.0.albert_layers.0.ffn_output"@, 2048, 768);
        let t11 = t10 + p11;
        let p12 = seq![shown("bert"@, "module.encoder.albert_layer_groups.0.albert_layers.0.full_layer_layer_norm.weight"@, seq![768]).gone(Absence::Unloaded)];
        let t12 = t11 + p12;
        let p13 = seq![shown("bert"@, "module.encoder.albert_layer_groups.0.albert_layers.0.full_layer_layer_norm.bias"@, seq![768]).gone(Absence::Unloaded)];
        let t13 = t12 + p13;
        let p14 = linear_tensors("bert_encoder"@, "module"@, 768, config.hidden_dim);
        let t14 = t13 + p14;
        lemma_stores_split(plan, base, t13, p14);
        lemma_stores_split(plan, base, t12, p13);
        lemma_stores_split(plan, base, t11, p12);
        lemma_stores_split(plan, base, t10, p11);
        lemma_stores_split(plan, base, t9, p10);
        lemma_stores_split(plan, base, t8, p9);
        lemma_stores_split(plan, base, t7, p8);
        lemma_stores_split(plan, base, t6, p7);
        lemma_stores_split(plan, base, t5, p6);
        lemma_stores_split(plan, base, t4, p5);
        lemma_stores_split(plan, base, t3, p4);
        lemma_stores_split(plan, base, t2, p3);
        lemma_stores_split(plan, base, t1, p2);
        lemma_stores_split(plan, base, t0, p1);
        lemma_stored2(plan, base, t0, 0, config.n_token, 128);
        lemma_stored2(plan, base, t0, 1, config.plbert.max_position_embeddings, 128);
        lemma_stored2(plan, base, t0, 2, 2, 128);
        lemma_stored1(plan, base + 3, p1, 0, 128);
        lemma_stored1(plan, base + 4, p2, 0, 128);
        Linear::law_loaded_weights_fit(plan, base + 5, "bert"@, "module.encoder.embedding_hidden_mapping_in"@, 128, 768);
        Linear::law_loaded_weights_fit(plan, base + 7, "bert"@, "module.encoder.albert_layer_groups.0.albert_layers.0.attention.query"@, 768, 768);
        Linear::law_loaded_weights_fit(plan, base + 9, "bert"@, "module.encoder.albert_layer_groups.0.albert_layers.0.attention.key"@, 768, 768);
        Linear::law_loaded_weights_fit(plan, base + 11, "bert"@, "module.encoder.albert_layer_groups.0.albert_layers.0.attention.value"@, 768, 768);
        Linear::law_loaded_weights_fit(plan, base + 13, "bert"@, "module.encoder.albert_layer_groups.0.albert_layers.0.attention.dense"@, 768, 768);
        lemma_stored1(plan, base + 15, p8, 0, 768);
        lemma_stored1(plan, base + 16, p9, 0, 768);
        Linear::law_loaded_weights_fit(plan, base + 17, "bert"@, "module.encoder.albert_layer_groups.0.albert_layers.0.ffn"@, 768, 2048);
        Linear::law_loaded_weights_fit(plan, base + 19, "bert"@, "module.encoder.albert_layer_groups.0.albert_layers.0.ffn_output"@, 2048, 768);
        lemma_stored1(plan, base + 21, p12, 0, 768);
        lemma_stored1(plan, base + 22, p13, 0, 768);
        Linear::law_loaded_weights_fit(plan, base + 23, "bert_encoder"@, "module"@, 768, config.hidden_dim);
    }
}

} // verus!
