//! What the codec promises: every code, every codebook and every weight has its
//! share in what is rebuilt, codes name the rows that are summed, and branches
//! that add nothing leave the stream as it is.
use vstd::prelude::*;
use crate::device::{Plan, Term};
use crate::device::compound::linear;
use crate::device::idle::{
    lemma_blank_added, lemma_blank_map, lemma_blank_product, lemma_blank_scaled, lemma_blank_through,
    lemma_blank_turned, lemma_quiet, quiet,
};
use crate::device::kernels::Kernel;
use crate::device::meaning::{
    Machine, absorbing, alike, blank, group_numbers, group_origins, made_from, neutral, numbers, piece,
    silent, still, zero_row,
};
use crate::device::value::{
    add_bias_f16_inplace, add_f16, add_inplace_f32_f16, conv_transpose1d_causal_f16, copy_f16_to_f32,
    copy_f32_to_f16, gather_rows_f16, gelu_erf_f16, gemv_dual_f16_out_b, gemv_f16, matmul_f16,
    mul_f16_broadcast, silu, transpose_f16,
};
use crate::qwen3_tts::codec::{
    CodecQuantizer, CodecTransformerLayer, CodecUpsampleStage, acoustic_sum, codec_attended,
    codec_fed_forward, codec_layers, first_row, upsample_stages, upsampled, values_of,
};
use crate::qwen3_tts::codec_encoder::{
    TransformerLayer, encoder_attended, encoder_fed_forward, encoder_layers,
};
use crate::qwen3_tts::frontend::{TalkerFrontend, projected_text};

verus! {

/// All weights of a layer of the codec's transformer go into `t`.
pub open spec fn uses_layer(t: Term, v: Seq<Term>, w: CodecTransformerLayer) -> bool {
    &&& made_from(t, v[w.input_norm as int])
    &&& made_from(t, v[w.q_proj as int])
    &&& made_from(t, v[w.k_proj as int])
    &&& made_from(t, v[w.v_proj as int])
    &&& made_from(t, v[w.o_proj as int])
    &&& made_from(t, v[w.attention_scale as int])
    &&& made_from(t, v[w.post_attention_norm as int])
    &&& made_from(t, v[w.gate_proj as int])
    &&& made_from(t, v[w.up_proj as int])
    &&& made_from(t, v[w.down_proj as int])
    &&& made_from(t, v[w.mlp_scale as int])
}

proof fn lemma_layer_origins(w: CodecTransformerLayer, plan: Plan, x: Term)
    ensures
        ({
            let t = codec_fed_forward(w, plan, codec_attended(w, plan, x));
            made_from(t, x) && uses_layer(t, plan.values(), w)
        }),
{
    broadcast use group_origins;

    let v = plan.values();
    let mid = codec_attended(w, plan, x);
    assert(made_from(mid, x) && made_from(mid, v[w.input_norm as int]));
    assert(made_from(mid, v[w.q_proj as int]) && made_from(mid, v[w.k_proj as int]));
    assert(made_from(mid, v[w.v_proj as int]) && made_from(mid, v[w.o_proj as int]));
    assert(made_from(mid, v[w.attention_scale as int]));
    assert(made_from(codec_fed_forward(w, plan, mid), mid));
}

/// All layers have their share in what the codec's transformer gives.
pub proof fn law_layers_use_every_weight(
    layers: Seq<CodecTransformerLayer>,
    plan: Plan,
    x: Term,
    n: nat,
)
    requires
        n <= layers.len(),
    ensures
        made_from(codec_layers(layers, plan, x, n), x),
        forall|i: int|
            0 <= i < n ==> uses_layer(
                codec_layers(layers, plan, x, n),
                plan.values(),
                #[trigger] layers[i],
            ),
    decreases n,
{
    if n > 0 {
        let before = codec_layers(layers, plan, x, (n - 1) as nat);
        law_layers_use_every_weight(layers, plan, x, (n - 1) as nat);
        lemma_layer_origins(layers[n - 1], plan, before);
    }
}

/// A layer of the codec's transformer whose two branches add nothing leaves the
/// stream as it is.
pub proof fn law_idle_layers_keep_the_stream(
    m: Machine,
    w: CodecTransformerLayer,
    plan: Plan,
    x: Term,
)
    requires
        neutral(m),
        absorbing(m),
        silent(m, false, plan.values()[w.o_proj as int]),
        silent(m, false, plan.values()[w.down_proj as int]),
    ensures
        alike(m, codec_fed_forward(w, plan, codec_attended(w, plan, x)), x),
{
    let v = plan.values();
    let mid = codec_attended(w, plan, x);
    let a = mid->args[1]->args[0]->args[0];
    assert(mid == add_inplace_f32_f16(
        x,
        mul_f16_broadcast(
            gemv_f16(a, v[w.o_proj as int], 512, 1024),
            v[w.attention_scale as int],
            512,
            512,
        ),
        512,
    ));
    let p = gemv_f16(a, v[w.o_proj as int], 512, 1024);
    lemma_blank_product(m, a, v[w.o_proj as int], 1, 512, 1024);
    lemma_blank_scaled(m, p, v[w.attention_scale as int], 512, 512);
    lemma_blank_added(m, x, mul_f16_broadcast(p, v[w.attention_scale as int], 512, 512), 512);
    let t = codec_fed_forward(w, plan, mid);
    let b = t->args[1]->args[0]->args[0];
    assert(t == add_inplace_f32_f16(
        mid,
        mul_f16_broadcast(
            gemv_f16(b, v[w.down_proj as int], 512, 1024),
            v[w.mlp_scale as int],
            512,
            512,
        ),
        512,
    ));
    let q = gemv_f16(b, v[w.down_proj as int], 512, 1024);
    lemma_blank_product(m, b, v[w.down_proj as int], 1, 512, 1024);
    lemma_blank_scaled(m, q, v[w.mlp_scale as int], 512, 512);
    lemma_blank_added(m, mid, mul_f16_broadcast(q, v[w.mlp_scale as int], 512, 512), 512);
}

/// All weights of an upsampling stage go into `t`.
pub open spec fn uses_stage(t: Term, v: Seq<Term>, w: CodecUpsampleStage) -> bool {
    &&& made_from(t, v[w.transposed_weight as int])
    &&& made_from(t, v[w.transposed_bias as int])
    &&& made_from(t, v[w.depthwise_weight as int])
    &&& made_from(t, v[w.depthwise_bias as int])
    &&& made_from(t, v[w.norm_weight as int])
    &&& made_from(t, v[w.norm_bias as int])
    &&& made_from(t, v[w.pointwise_in_weight as int])
    &&& made_from(t, v[w.pointwise_in_bias as int])
    &&& made_from(t, v[w.pointwise_out_weight as int])
    &&& made_from(t, v[w.pointwise_out_bias as int])
    &&& made_from(t, v[w.gamma as int])
}

proof fn lemma_stage_origins(w: CodecUpsampleStage, plan: Plan, x: Term, len: u32)
    ensures
        made_from(upsampled(w, plan, x, len), x),
        uses_stage(upsampled(w, plan, x, len), plan.values(), w),
{
    broadcast use group_origins;

}

/// All upsampling stages have their share in what they give.
pub proof fn law_stages_use_every_weight(
    stages: Seq<CodecUpsampleStage>,
    plan: Plan,
    x: Term,
    n: nat,
)
    requires
        n <= stages.len(),
    ensures
        made_from(upsample_stages(stages, plan, x, n), x),
        forall|i: int|
            0 <= i < n ==> uses_stage(
                upsample_stages(stages, plan, x, n),
                plan.values(),
                #[trigger] stages[i],
            ),
    decreases n,
{
    if n > 0 {
        let before = upsample_stages(stages, plan, x, (n - 1) as nat);
        law_stages_use_every_weight(stages, plan, x, (n - 1) as nat);
        lemma_stage_origins(stages[n - 1], plan, before, if n == 1 { 2 } else { 4 });
    }
}

/// An upsampling stage whose pointwise network adds nothing is its transposed
/// convolution.
pub proof fn law_idle_stages_only_upsample(
    m: Machine,
    w: CodecUpsampleStage,
    plan: Plan,
    x: Term,
    len: u32,
)
    requires
        neutral(m),
        absorbing(m),
        silent(m, false, plan.values()[w.pointwise_out_weight as int]),
        blank(m, plan.values()[w.pointwise_out_bias as int]),
    ensures
        alike(
            m,
            upsampled(w, plan, x, len),
            conv_transpose1d_causal_f16(
                x,
                plan.values()[w.transposed_weight as int],
                plan.values()[w.transposed_bias as int],
                1024,
                1024,
                (len / 2) as u32,
                2,
                2,
            ),
        ),
{
    let v = plan.values();
    let n = (1024 * len) as u32;
    let t = upsampled(w, plan, x, len);
    let r = conv_transpose1d_causal_f16(
        x,
        v[w.transposed_weight as int],
        v[w.transposed_bias as int],
        1024,
        1024,
        (len / 2) as u32,
        2,
        2,
    );
    let a = t->args[1]->args[0]->args[0]->args[0]->args[0];
    let (weight, bias) = (v[w.pointwise_out_weight as int], v[w.pointwise_out_bias as int]);
    let p = add_bias_f16_inplace(matmul_f16(a, weight, len, 1024, 4096), bias, len, 1024);
    let s = mul_f16_broadcast(p, v[w.gamma as int], n, 1024);
    assert(t == add_f16(r, transpose_f16(s, len, 1024), n));
    lemma_blank_map(m, a, weight, bias, len, 1024, 4096);
    lemma_blank_scaled(m, p, v[w.gamma as int], n, 1024);
    lemma_blank_turned(m, s, len, 1024);
    lemma_blank_added(m, r, transpose_f16(s, len, 1024), n);
}

/// Number `j` of the sum of the rows that codes `1` to `n` name, each in its own
/// codebook.
pub open spec fn named_rows(m: Machine, books: Seq<Term>, codes: Seq<i32>, n: nat, j: int) -> int
    decreases n,
{
    if n == 0 {
        0
    } else {
        (m.add)(
            named_rows(m, books, codes, (n - 1) as nat, j),
            numbers(m, books[n - 1])(codes[n as int] * 256 + j),
        )
    }
}

/// What is summed of the acoustic codes: the rows that they name, one of every
/// codebook.
pub proof fn law_acoustic_codes_name_their_rows(
    m: Machine,
    books: Seq<Term>,
    codes: Seq<i32>,
    n: nat,
    j: int,
)
    requires
        0 <= j < 256,
    ensures
        numbers(m, acoustic_sum(books, codes, n))(j) == named_rows(m, books, codes, n, j),
    decreases n,
{
    broadcast use group_numbers;

    if n > 0 {
        law_acoustic_codes_name_their_rows(m, books, codes, (n - 1) as nat, j);
        let before = acoustic_sum(books, codes, (n - 1) as nat);
        let ids = Term::Integers(seq![codes[n as int]]);
        let row = gather_rows_f16(books[n - 1], ids, 1, 256);
        assert(row->args.len() == 2);
        let t = add_inplace_f32_f16(before, row, 256);
        assert(t->args.len() == 2);
        assert(j / 256 == 0 && j % 256 == j);
        assert(numbers(m, ids)(0) == codes[n as int]);
        assert(numbers(m, row)(j) == numbers(m, books[n - 1])(codes[n as int] * 256 + j));
    }
}

proof fn lemma_sum_origins(books: Seq<Term>, codes: Seq<i32>, n: nat)
    ensures
        forall|i: int|
            0 <= i < n ==> made_from(acoustic_sum(books, codes, n), #[trigger] books[i]),
        forall|i: int|
            1 <= i <= n ==> made_from(
                acoustic_sum(books, codes, n),
                Term::Integers(seq![#[trigger] codes[i]]),
            ),
    decreases n,
{
    broadcast use group_origins;

    if n > 0 {
        lemma_sum_origins(books, codes, (n - 1) as nat);
        let before = acoustic_sum(books, codes, (n - 1) as nat);
        let row = gather_rows_f16(books[n - 1], Term::Integers(seq![codes[n as int]]), 1, 256);
        let t = acoustic_sum(books, codes, n);
        assert(made_from(t, before) && made_from(t, row));
        assert(made_from(row, books[n - 1]));
        assert(made_from(row, Term::Integers(seq![codes[n as int]])));
    }
}

/// A latent is made from all sixteen codes, from all codebooks and from both
/// projections.
pub proof fn law_latents_use_every_code(w: CodecQuantizer, plan: Plan, codes: Seq<i32>)
    requires
        w.rest_codebooks@.len() == 15,
    ensures
        ({
            let t = w.latent(plan, codes);
            let v = plan.values();
            &&& made_from(t, v[w.first_codebook as int])
            &&& made_from(t, Term::Integers(seq![first_row(codes[0])]))
            &&& made_from(t, v[w.first_output_proj as int])
            &&& made_from(t, v[w.rest_output_proj as int])
            &&& forall|i: int|
                0 <= i < 15 ==> made_from(t, v[#[trigger] w.rest_codebooks@[i] as int])
            &&& forall|i: int|
                1 <= i <= 15 ==> made_from(t, Term::Integers(seq![#[trigger] codes[i]]))
        }),
{
    broadcast use group_origins;

    let v = plan.values();
    let books = values_of(plan, w.rest_codebooks@);
    lemma_sum_origins(books, codes, 15);
    let t = w.latent(plan, codes);
    let sum = acoustic_sum(books, codes, 15);
    assert(made_from(t, sum));
    assert forall|i: int| 0 <= i < 15 implies made_from(
        t,
        v[#[trigger] w.rest_codebooks@[i] as int],
    ) by {
        assert(books[i] == v[w.rest_codebooks@[i] as int]);
    }
    assert forall|i: int| 1 <= i <= 15 implies made_from(
        t,
        Term::Integers(seq![#[trigger] codes[i]]),
    ) by {}
}

/// Where the acoustic codes count for nothing, a latent is the projected row
/// that the first code names, and the other way round.
pub proof fn law_latents_add_both_projections(m: Machine, w: CodecQuantizer, plan: Plan, codes: Seq<i32>)
    requires
        neutral(m),
    ensures
        ({
            let v = plan.values();
            let first = gather_rows_f16(
                v[w.first_codebook as int],
                Term::Integers(seq![first_row(codes[0])]),
                1,
                256,
            );
            let rest = copy_f32_to_f16(
                acoustic_sum(values_of(plan, w.rest_codebooks@), codes, 15),
                256,
            );
            &&& silent(m, false, v[w.rest_output_proj as int]) ==> alike(
                m,
                w.latent(plan, codes),
                gemv_f16(first, v[w.first_output_proj as int], 512, 256),
            )
            &&& silent(m, false, v[w.first_output_proj as int]) ==> alike(
                m,
                w.latent(plan, codes),
                gemv_f16(rest, v[w.rest_output_proj as int], 512, 256),
            )
        }),
{
    let v = plan.values();
    let first = gather_rows_f16(
        v[w.first_codebook as int],
        Term::Integers(seq![first_row(codes[0])]),
        1,
        256,
    );
    let rest = copy_f32_to_f16(acoustic_sum(values_of(plan, w.rest_codebooks@), codes, 15), 256);
    let a = gemv_f16(first, v[w.first_output_proj as int], 512, 256);
    let b = gemv_f16(rest, v[w.rest_output_proj as int], 512, 256);
    if silent(m, false, v[w.rest_output_proj as int]) {
        lemma_blank_product(m, rest, v[w.rest_output_proj as int], 1, 512, 256);
        lemma_blank_added(m, a, b, 512);
    }
    if silent(m, false, v[w.first_output_proj as int]) {
        lemma_blank_product(m, first, v[w.first_output_proj as int], 1, 512, 256);
        lemma_blank_added(m, b, a, 512);
    }
}

/// What the codec's transformer gives for a frame is made from its latent and
/// from all weights on the way.
pub proof fn law_frames_use_every_weight(w: CodecQuantizer, plan: Plan, codes: Seq<i32>)
    ensures
        ({
            let t = w.transformed(plan, codes);
            let v = plan.values();
            &&& made_from(t, w.latent(plan, codes))
            &&& made_from(t, v[w.pre_conv_weight as int])
            &&& made_from(t, v[w.pre_conv_bias as int])
            &&& made_from(t, v[w.transformer_input_weight as int])
            &&& made_from(t, v[w.transformer_input_bias as int])
            &&& made_from(t, v[w.transformer_norm as int])
            &&& made_from(t, v[w.transformer_output_weight as int])
            &&& made_from(t, v[w.transformer_output_bias as int])
            &&& forall|i: int|
                0 <= i < w.transformer_layers@.len() ==> uses_layer(
                    t,
                    v,
                    #[trigger] w.transformer_layers@[i],
                )
        }),
{
    broadcast use group_origins;

    let v = plan.values();
    let pre = w.preconv(plan, codes);
    assert(made_from(pre, w.latent(plan, codes)) && made_from(pre, v[w.pre_conv_weight as int]));
    assert(made_from(pre, v[w.pre_conv_bias as int]));
    let x = copy_f16_to_f32(
        add_bias_f16_inplace(
            gemv_f16(pre, v[w.transformer_input_weight as int], 512, 1024),
            v[w.transformer_input_bias as int],
            1,
            512,
        ),
        512,
    );
    assert(made_from(x, pre));
    let n = w.transformer_layers@.len();
    law_layers_use_every_weight(w.transformer_layers@, plan, x, n);
    let last = codec_layers(w.transformer_layers@, plan, x, n);
    let t = w.transformed(plan, codes);
    assert(made_from(t, last));
}

/// All weights of a layer of the encoder's transformer go into `t`.
pub open spec fn uses_encoder_layer(t: Term, v: Seq<Term>, w: TransformerLayer) -> bool {
    &&& made_from(t, v[w.input_norm_weight as int])
    &&& made_from(t, v[w.input_norm_bias as int])
    &&& made_from(t, v[w.q_proj as int])
    &&& made_from(t, v[w.k_proj as int])
    &&& made_from(t, v[w.v_proj as int])
    &&& made_from(t, v[w.o_proj as int])
    &&& made_from(t, v[w.attention_scale as int])
    &&& made_from(t, v[w.post_norm_weight as int])
    &&& made_from(t, v[w.post_norm_bias as int])
    &&& made_from(t, v[w.fc1 as int])
    &&& made_from(t, v[w.fc2 as int])
    &&& made_from(t, v[w.mlp_scale as int])
}

proof fn lemma_encoder_layer_origins(w: TransformerLayer, plan: Plan, x: Term, len: u32)
    ensures
        ({
            let t = encoder_fed_forward(w, plan, encoder_attended(w, plan, x, len), len);
            made_from(t, x) && uses_encoder_layer(t, plan.values(), w)
        }),
{
    broadcast use group_origins;

    let v = plan.values();
    let mid = encoder_attended(w, plan, x, len);
    assert(made_from(mid, x) && made_from(mid, v[w.input_norm_weight as int]));
    assert(made_from(mid, v[w.input_norm_bias as int]) && made_from(mid, v[w.q_proj as int]));
    assert(made_from(mid, v[w.k_proj as int]) && made_from(mid, v[w.v_proj as int]));
    assert(made_from(mid, v[w.o_proj as int]) && made_from(mid, v[w.attention_scale as int]));
    assert(made_from(encoder_fed_forward(w, plan, mid, len), mid));
}

/// All layers have their share in what the encoder's transformer gives.
pub proof fn law_encoder_layers_use_every_weight(
    layers: Seq<TransformerLayer>,
    plan: Plan,
    x: Term,
    len: u32,
    n: nat,
)
    requires
        n <= layers.len(),
    ensures
        made_from(encoder_layers(layers, plan, x, len, n), x),
        forall|i: int|
            0 <= i < n ==> uses_encoder_layer(
                encoder_layers(layers, plan, x, len, n),
                plan.values(),
                #[trigger] layers[i],
            ),
    decreases n,
{
    if n > 0 {
        let before = encoder_layers(layers, plan, x, len, (n - 1) as nat);
        law_encoder_layers_use_every_weight(layers, plan, x, len, (n - 1) as nat);
        lemma_encoder_layer_origins(layers[n - 1], plan, before, len);
    }
}

/// A layer of the encoder's transformer whose two branches add nothing leaves
/// the stream as it is.
pub proof fn law_idle_encoder_layers_keep_the_stream(
    m: Machine,
    w: TransformerLayer,
    plan: Plan,
    x: Term,
    len: u32,
)
    requires
        neutral(m),
        absorbing(m),
        silent(m, false, plan.values()[w.o_proj as int]),
        silent(m, false, plan.values()[w.fc2 as int]),
    ensures
        alike(m, encoder_fed_forward(w, plan, encoder_attended(w, plan, x, len), len), x),
{
    let v = plan.values();
    let n = (512 * len) as u32;
    let mid = encoder_attended(w, plan, x, len);
    let a = mid->args[1]->args[0]->args[0];
    let p = matmul_f16(a, v[w.o_proj as int], len, 512, 512);
    assert(mid == add_inplace_f32_f16(
        x,
        mul_f16_broadcast(p, v[w.attention_scale as int], n, 512),
        n,
    ));
    lemma_blank_product(m, a, v[w.o_proj as int], len, 512, 512);
    lemma_blank_scaled(m, p, v[w.attention_scale as int], n, 512);
    lemma_blank_added(m, x, mul_f16_broadcast(p, v[w.attention_scale as int], n, 512), n);
    let t = encoder_fed_forward(w, plan, mid, len);
    let b = t->args[1]->args[0]->args[0];
    let q = matmul_f16(b, v[w.fc2 as int], len, 512, 2048);
    assert(t == add_inplace_f32_f16(
        mid,
        mul_f16_broadcast(q, v[w.mlp_scale as int], n, 512),
        n,
    ));
    lemma_blank_product(m, b, v[w.fc2 as int], len, 512, 2048);
    lemma_blank_scaled(m, q, v[w.mlp_scale as int], n, 512);
    lemma_blank_added(m, mid, mul_f16_broadcast(q, v[w.mlp_scale as int], n, 512), n);
}

/// Projected text is made from the tokens and from every weight of the text's
/// projection.
pub proof fn law_text_uses_every_weight(f: TalkerFrontend, plan: Plan, ids: Term, rows: u32)
    ensures
        ({
            let t = projected_text(f, plan, ids, rows);
            let v = plan.values();
            &&& made_from(t, ids)
            &&& made_from(t, v[f.text_embedding as int])
            &&& made_from(t, v[f.text_fc1_weight as int])
            &&& made_from(t, v[f.text_fc1_bias as int])
            &&& made_from(t, v[f.text_fc2_weight as int])
            &&& made_from(t, v[f.text_fc2_bias as int])
        }),
{
    broadcast use group_origins;

}

/// What the network of an encoder layer adds has passed its activation: where
/// that gives nothing, the stream stays as it is.
pub proof fn law_encoder_networks_are_activated(
    m: Machine,
    w: TransformerLayer,
    plan: Plan,
    x: Term,
    len: u32,
)
    requires
        neutral(m),
        still(m),
        absorbing(m),
        quiet(m, Kernel::GeluErfF16),
    ensures
        alike(m, encoder_fed_forward(w, plan, x, len), x),
{
    let v = plan.values();
    let n = (512 * len) as u32;
    let t = encoder_fed_forward(w, plan, x, len);
    let b = t->args[1]->args[0]->args[0];
    let inner = b->args[0];
    assert(b == gelu_erf_f16(inner, (2048 * len) as u32));
    lemma_quiet(m, inner, (2048 * len) as u32);
    let q = matmul_f16(b, v[w.fc2 as int], len, 512, 2048);
    lemma_blank_through(m, b, v[w.fc2 as int], b, len, 512, 2048);
    lemma_blank_scaled(m, q, v[w.mlp_scale as int], n, 512);
    assert(t == add_inplace_f32_f16(x, mul_f16_broadcast(q, v[w.mlp_scale as int], n, 512), n));
    lemma_blank_added(m, x, mul_f16_broadcast(q, v[w.mlp_scale as int], n, 512), n);
}

/// What the network of an upsampling stage adds has passed its activation: where
/// that gives nothing, the stage is its transposed convolution.
pub proof fn law_stage_networks_are_activated(
    m: Machine,
    w: CodecUpsampleStage,
    plan: Plan,
    x: Term,
    len: u32,
)
    requires
        neutral(m),
        still(m),
        absorbing(m),
        quiet(m, Kernel::GeluErfF16),
        blank(m, plan.values()[w.pointwise_out_bias as int]),
    ensures
        alike(
            m,
            upsampled(w, plan, x, len),
            conv_transpose1d_causal_f16(
                x,
                plan.values()[w.transposed_weight as int],
                plan.values()[w.transposed_bias as int],
                1024,
                1024,
                (len / 2) as u32,
                2,
                2,
            ),
        ),
{
    let v = plan.values();
    let n = (1024 * len) as u32;
    let t = upsampled(w, plan, x, len);
    let r = t->args[0];
    let a = t->args[1]->args[0]->args[0]->args[0]->args[0];
    let inner = a->args[0];
    assert(a == gelu_erf_f16(inner, (4096 * len) as u32));
    lemma_quiet(m, inner, (4096 * len) as u32);
    let (weight, bias) = (v[w.pointwise_out_weight as int], v[w.pointwise_out_bias as int]);
    let p = linear(a, weight, bias, len, 1024, 4096);
    lemma_blank_through(m, a, weight, bias, len, 1024, 4096);
    let s = mul_f16_broadcast(p, v[w.gamma as int], n, 1024);
    assert(t == add_f16(r, transpose_f16(s, len, 1024), n));
    lemma_blank_scaled(m, p, v[w.gamma as int], n, 1024);
    lemma_blank_turned(m, s, len, 1024);
    lemma_blank_added(m, r, transpose_f16(s, len, 1024), n);
}

/// What a codec layer's network adds is what comes up, let through by a gate:
/// where nothing comes up, the stream stays as it is.
pub proof fn law_gates_let_through_what_comes_up(
    m: Machine,
    w: CodecTransformerLayer,
    plan: Plan,
    x: Term,
)
    requires
        neutral(m),
        still(m),
        absorbing(m),
        silent(m, false, plan.values()[w.up_proj as int]),
    ensures
        alike(m, codec_fed_forward(w, plan, x), x),
{
    broadcast use group_numbers;

    let v = plan.values();
    let t = codec_fed_forward(w, plan, x);
    let q = t->args[1]->args[0];
    let a = q->args[0];
    let (gate, up) = (a->args[0], a->args[1]);
    assert(a == silu(gate, up, 1024));
    let y = up->args[0];
    assert(up == gemv_dual_f16_out_b(y, v[w.gate_proj as int], v[w.up_proj as int], 1024, 512));
    assert(up->args.len() == 3);
    assert(a->args.len() == 2);
    assert(blank(m, up));
    assert forall|j: int| #[trigger] numbers(m, a)(j) == 0 by {
        assert(numbers(m, up)(j) == 0);
    }
    assert(q == gemv_f16(a, v[w.down_proj as int], 512, 1024));
    assert(q->args.len() == 2);
    assert forall|j: int| #[trigger] numbers(m, q)(j) == 0 by {
        let row = piece(numbers(m, a), j / 512 * 1024, 1024);
        assert(zero_row(row));
    }
    lemma_blank_scaled(m, q, v[w.mlp_scale as int], 512, 512);
    assert(t == add_inplace_f32_f16(x, mul_f16_broadcast(q, v[w.mlp_scale as int], 512, 512), 512));
    lemma_blank_added(m, x, mul_f16_broadcast(q, v[w.mlp_scale as int], 512, 512), 512);
}

} // verus!
