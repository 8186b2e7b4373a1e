//! What the speech encoder, the flow and the prefix promise: every input and
//! every weight has its share, and branches that add nothing leave the stream as
//! it is.
use vstd::prelude::*;
use crate::chatterbox::flow::{ChatterboxFlowTransformerBlock, flow_attended, flow_fed_forward};
use crate::chatterbox::frontend::{
    ChatterboxT3Frontend, ConditionRows, consecutive, normed, perceived, positioned,
};
use crate::chatterbox::s3gen::{
    ChatterboxS3ConformerLayer, ChatterboxS3Encoder, S3Input, S3Upsample, conformer, conformer_attended,
    conformer_fed_forward, conformers, doubled, looked_ahead, scaled_input,
};
use crate::device::{Plan, Term};
use crate::device::compound::linear;
use crate::device::idle::{
    lemma_blank_added, lemma_blank_map, lemma_blank_through, lemma_blank_turned, lemma_quiet, quiet,
};
use crate::device::kernels::Kernel;
use crate::device::meaning::{
    Machine, alike, blank, group_numbers, group_origins, made_from, neutral, numbers, silent, still,
};
use crate::device::value::{
    add_bias_f16_inplace, add_f16, add_inplace_f32_f16, conv1d_padded_f16, copy_f16_at, gather_rows_f16,
    gelu_erf_f16, matmul_f16, silu_act_f16, transpose_f16,
};

verus! {

/// All weights of a conformer layer go into `t`.
pub open spec fn uses_conformer(t: Term, v: Seq<Term>, w: ChatterboxS3ConformerLayer) -> bool {
    &&& made_from(t, v[w.norm_mha_weight as int])
    &&& made_from(t, v[w.norm_mha_bias as int])
    &&& made_from(t, v[w.q_weight as int])
    &&& made_from(t, v[w.q_bias as int])
    &&& made_from(t, v[w.k_weight as int])
    &&& made_from(t, v[w.k_bias as int])
    &&& made_from(t, v[w.v_weight as int])
    &&& made_from(t, v[w.v_bias as int])
    &&& made_from(t, v[w.pos_weight as int])
    &&& made_from(t, v[w.pos_bias_u as int])
    &&& made_from(t, v[w.pos_bias_v as int])
    &&& made_from(t, v[w.out_weight as int])
    &&& made_from(t, v[w.out_bias as int])
    &&& made_from(t, v[w.norm_ff_weight as int])
    &&& made_from(t, v[w.norm_ff_bias as int])
    &&& made_from(t, v[w.ff1_weight as int])
    &&& made_from(t, v[w.ff1_bias as int])
    &&& made_from(t, v[w.ff2_weight as int])
    &&& made_from(t, v[w.ff2_bias as int])
}

/// A conformer layer is made from the stream, from the positions and from all of
/// its weights.
pub proof fn law_conformers_use_every_weight(
    w: ChatterboxS3ConformerLayer,
    plan: Plan,
    x: Term,
    positions: Term,
    len: u32,
)
    ensures
        made_from(conformer(w, plan, x, positions, len), x),
        made_from(conformer(w, plan, x, positions, len), positions),
        uses_conformer(conformer(w, plan, x, positions, len), plan.values(), w),
{
    broadcast use group_origins;

    reveal(conformer);
    let v = plan.values();
    let mid = conformer_attended(w, plan, x, positions, len);
    assert(made_from(mid, x) && made_from(mid, positions));
    assert(made_from(mid, v[w.norm_mha_weight as int]) && made_from(mid, v[w.norm_mha_bias as int]));
    assert(made_from(mid, v[w.q_weight as int]) && made_from(mid, v[w.q_bias as int]));
    assert(made_from(mid, v[w.k_weight as int]) && made_from(mid, v[w.k_bias as int]));
    assert(made_from(mid, v[w.v_weight as int]) && made_from(mid, v[w.v_bias as int]));
    assert(made_from(mid, v[w.pos_weight as int]));
    assert(made_from(mid, v[w.pos_bias_u as int]) && made_from(mid, v[w.pos_bias_v as int]));
    assert(made_from(mid, v[w.out_weight as int]) && made_from(mid, v[w.out_bias as int]));
    assert(made_from(conformer_fed_forward(w, plan, mid, len), mid));
}

/// All conformer layers have their share in what they give together.
pub proof fn law_streams_pass_every_conformer(
    layers: Seq<ChatterboxS3ConformerLayer>,
    plan: Plan,
    x: Term,
    positions: Term,
    len: u32,
    n: nat,
)
    requires
        n <= layers.len(),
    ensures
        made_from(conformers(layers, plan, x, positions, len, n), x),
        n > 0 ==> made_from(conformers(layers, plan, x, positions, len, n), positions),
        forall|i: int|
            0 <= i < n ==> uses_conformer(
                conformers(layers, plan, x, positions, len, n),
                plan.values(),
                #[trigger] layers[i],
            ),
    decreases n,
{
    if n > 0 {
        let before = conformers(layers, plan, x, positions, len, (n - 1) as nat);
        law_streams_pass_every_conformer(layers, plan, x, positions, len, (n - 1) as nat);
        law_conformers_use_every_weight(layers[n - 1], plan, before, positions, len);
    }
}

/// A conformer layer whose two branches add nothing leaves the stream as it is.
pub proof fn law_idle_conformers_keep_the_stream(
    m: Machine,
    w: ChatterboxS3ConformerLayer,
    plan: Plan,
    x: Term,
    positions: Term,
    len: u32,
)
    requires
        neutral(m),
        silent(m, false, plan.values()[w.out_weight as int]),
        blank(m, plan.values()[w.out_bias as int]),
        silent(m, false, plan.values()[w.ff2_weight as int]),
        blank(m, plan.values()[w.ff2_bias as int]),
    ensures
        alike(m, conformer(w, plan, x, positions, len), x),
{
    reveal(conformer);
    let v = plan.values();
    let n = (512 * len) as u32;
    let mid = conformer_attended(w, plan, x, positions, len);
    let a = mid->args[1]->args[0]->args[0];
    let p = linear(a, v[w.out_weight as int], v[w.out_bias as int], len, 512, 512);
    assert(mid == add_inplace_f32_f16(x, p, n));
    lemma_blank_map(m, a, v[w.out_weight as int], v[w.out_bias as int], len, 512, 512);
    lemma_blank_added(m, x, p, n);
    let t = conformer_fed_forward(w, plan, mid, len);
    let b = t->args[1]->args[0]->args[0];
    let q = linear(b, v[w.ff2_weight as int], v[w.ff2_bias as int], len, 512, 2048);
    assert(t == add_inplace_f32_f16(mid, q, n));
    lemma_blank_map(m, b, v[w.ff2_weight as int], v[w.ff2_bias as int], len, 512, 2048);
    lemma_blank_added(m, mid, q, n);
}

proof fn lemma_input_origins(
    x: Term,
    weight: Term,
    bias: Term,
    norm_weight: Term,
    norm_bias: Term,
    len: u32,
)
    ensures
        ({
            let t = scaled_input(x, weight, bias, norm_weight, norm_bias, len);
            &&& made_from(t, x)
            &&& made_from(t, weight)
            &&& made_from(t, bias)
            &&& made_from(t, norm_weight)
            &&& made_from(t, norm_bias)
        }),
{
    broadcast use group_origins;

}

proof fn lemma_ahead_origins(w: S3Input, plan: Plan, x: Term, len: u32)
    ensures
        ({
            let t = looked_ahead(w, plan, x, len);
            let v = plan.values();
            &&& made_from(t, x)
            &&& made_from(t, v[w.lookahead1_weight as int])
            &&& made_from(t, v[w.lookahead1_bias as int])
            &&& made_from(t, v[w.lookahead2_weight as int])
            &&& made_from(t, v[w.lookahead2_bias as int])
        }),
{
    broadcast use group_origins;

}

/// Where the second convolution gives nothing, looking ahead leaves the stream
/// as it is.
pub proof fn law_idle_lookahead_keeps_the_stream(m: Machine, w: S3Input, plan: Plan, x: Term, len: u32)
    requires
        neutral(m),
        forall|y: Term|
            blank(
                m,
                #[trigger] conv1d_padded_f16(
                    y,
                    plan.values()[w.lookahead2_weight as int],
                    plan.values()[w.lookahead2_bias as int],
                    512,
                    512,
                    len,
                    3,
                    2,
                ),
            ),
    ensures
        alike(m, looked_ahead(w, plan, x, len), x),
{
    let v = plan.values();
    let n = (512 * len) as u32;
    let t = looked_ahead(w, plan, x, len);
    let second = t->args[1]->args[0];
    assert(t == add_inplace_f32_f16(x, transpose_f16(second, 512, len), n));
    assert(second == conv1d_padded_f16(
        second->args[0],
        v[w.lookahead2_weight as int],
        v[w.lookahead2_bias as int],
        512,
        512,
        len,
        3,
        2,
    ));
    lemma_blank_turned(m, second, 512, len);
    lemma_blank_added(m, x, transpose_f16(second, 512, len), n);
}

proof fn lemma_doubled_origins(w: S3Upsample, plan: Plan, x: Term, len: u32)
    ensures
        ({
            let t = doubled(w, plan, x, len);
            &&& made_from(t, x)
            &&& made_from(t, plan.values()[w.upsample_weight as int])
            &&& made_from(t, plan.values()[w.upsample_bias as int])
        }),
{
    broadcast use group_origins;

}

/// The tokens and all weights of the first half of the encoder go into `t`.
pub open spec fn uses_entry(t: Term, v: Seq<Term>, w: ChatterboxS3Encoder, tokens: Seq<i32>) -> bool {
    &&& made_from(t, Term::Integers(tokens))
    &&& made_from(t, v[w.input.token_embedding as int])
    &&& made_from(t, v[w.input.input_weight as int])
    &&& made_from(t, v[w.input.input_bias as int])
    &&& made_from(t, v[w.input.input_norm_weight as int])
    &&& made_from(t, v[w.input.input_norm_bias as int])
    &&& made_from(t, v[w.input.lookahead1_weight as int])
    &&& made_from(t, v[w.input.lookahead1_bias as int])
    &&& made_from(t, v[w.input.lookahead2_weight as int])
    &&& made_from(t, v[w.input.lookahead2_bias as int])
    &&& forall|i: int|
        0 <= i < w.layers@.len() ==> uses_conformer(t, v, #[trigger] w.layers@[i])
}

proof fn lemma_stream_origins(w: ChatterboxS3Encoder, plan: Plan, tokens: Seq<i32>, positions: Term)
    ensures
        uses_entry(w.token_stream(plan, tokens, positions), plan.values(), w, tokens),
        w.layers@.len() > 0 ==> made_from(w.token_stream(plan, tokens, positions), positions),
{
    broadcast use group_origins;

    let v = plan.values();
    let len = tokens.len() as u32;
    let i = w.input;
    let e = gather_rows_f16(v[i.token_embedding as int], Term::Integers(tokens), len, 512);
    assert(e->args.len() == 2);
    let (a, b) = (v[i.input_weight as int], v[i.input_bias as int]);
    let (c, d) = (v[i.input_norm_weight as int], v[i.input_norm_bias as int]);
    let x = scaled_input(e, a, b, c, d, len);
    lemma_input_origins(e, a, b, c, d, len);
    let y = looked_ahead(i, plan, x, len);
    lemma_ahead_origins(i, plan, x, len);
    let n = w.layers@.len();
    law_streams_pass_every_conformer(w.layers@, plan, y, positions, len, n);
}

/// Encoded speech tokens are made from the tokens, from both sets of positions
/// and from all weights of the encoder.
pub proof fn law_encodings_use_every_weight(
    w: ChatterboxS3Encoder,
    plan: Plan,
    tokens: Seq<i32>,
    positions: Term,
    up_positions: Term,
)
    ensures
        ({
            let t = w.encoded(plan, tokens, positions, up_positions);
            let v = plan.values();
            &&& uses_entry(t, v, w, tokens)
            &&& w.layers@.len() > 0 ==> made_from(t, positions)
            &&& w.up_layers@.len() > 0 ==> made_from(t, up_positions)
            &&& made_from(t, v[w.up.upsample_weight as int])
            &&& made_from(t, v[w.up.upsample_bias as int])
            &&& made_from(t, v[w.up.input_weight as int])
            &&& made_from(t, v[w.up.input_bias as int])
            &&& made_from(t, v[w.up.input_norm_weight as int])
            &&& made_from(t, v[w.up.input_norm_bias as int])
            &&& made_from(t, v[w.output.final_norm_weight as int])
            &&& made_from(t, v[w.output.final_norm_bias as int])
            &&& made_from(t, v[w.output.projection_weight as int])
            &&& made_from(t, v[w.output.projection_bias as int])
            &&& forall|i: int|
                0 <= i < w.up_layers@.len() ==> uses_conformer(t, v, #[trigger] w.up_layers@[i])
        }),
{
    broadcast use group_origins;

    let v = plan.values();
    let up_len = (2 * tokens.len()) as u32;
    let a = w.token_stream(plan, tokens, positions);
    lemma_stream_origins(w, plan, tokens, positions);
    let b = doubled(w.up, plan, a, tokens.len() as u32);
    lemma_doubled_origins(w.up, plan, a, tokens.len() as u32);
    let (p, q) = (v[w.up.input_weight as int], v[w.up.input_bias as int]);
    let (r, s) = (v[w.up.input_norm_weight as int], v[w.up.input_norm_bias as int]);
    let c = scaled_input(b, p, q, r, s, up_len);
    lemma_input_origins(b, p, q, r, s, up_len);
    let n = w.up_layers@.len();
    let d = conformers(w.up_layers@, plan, c, up_positions, up_len, n);
    law_streams_pass_every_conformer(w.up_layers@, plan, c, up_positions, up_len, n);
    let t = w.encoded(plan, tokens, positions, up_positions);
    assert(made_from(t, d));
    assert(made_from(t, c));
    assert(made_from(t, b));
    assert(made_from(t, a));
    assert forall|i: int| 0 <= i < w.layers@.len() implies uses_conformer(
        t,
        v,
        #[trigger] w.layers@[i],
    ) by {
        assert(uses_conformer(a, v, w.layers@[i]));
    }
    assert forall|i: int| 0 <= i < n implies uses_conformer(t, v, #[trigger] w.up_layers@[i]) by {
        assert(uses_conformer(d, v, w.up_layers@[i]));
    }
}

/// All weights of a block of the flow go into `t`.
pub open spec fn uses_flow(t: Term, v: Seq<Term>, w: ChatterboxFlowTransformerBlock) -> bool {
    &&& made_from(t, v[w.norm1_weight as int])
    &&& made_from(t, v[w.norm1_bias as int])
    &&& made_from(t, v[w.q_weight as int])
    &&& made_from(t, v[w.k_weight as int])
    &&& made_from(t, v[w.v_weight as int])
    &&& made_from(t, v[w.out_weight as int])
    &&& made_from(t, v[w.out_bias as int])
    &&& made_from(t, v[w.norm3_weight as int])
    &&& made_from(t, v[w.norm3_bias as int])
    &&& made_from(t, v[w.ff1_weight as int])
    &&& made_from(t, v[w.ff1_bias as int])
    &&& made_from(t, v[w.ff2_weight as int])
    &&& made_from(t, v[w.ff2_bias as int])
}

/// A block of the flow is made from the stream and from all of its weights.
pub proof fn law_flow_blocks_use_every_weight(
    w: ChatterboxFlowTransformerBlock,
    plan: Plan,
    x: Term,
    len: u32,
)
    ensures
        ({
            let t = flow_fed_forward(w, plan, flow_attended(w, plan, x, len), len);
            made_from(t, x) && uses_flow(t, plan.values(), w)
        }),
{
    broadcast use group_origins;

    let v = plan.values();
    let mid = flow_attended(w, plan, x, len);
    assert(made_from(mid, x));
    assert(made_from(mid, v[w.norm1_weight as int]) && made_from(mid, v[w.norm1_bias as int]));
    assert(made_from(mid, v[w.q_weight as int]) && made_from(mid, v[w.k_weight as int]));
    assert(made_from(mid, v[w.v_weight as int]) && made_from(mid, v[w.out_weight as int]));
    assert(made_from(mid, v[w.out_bias as int]));
    assert(made_from(flow_fed_forward(w, plan, mid, len), mid));
}

/// A block of the flow whose two branches add nothing leaves the stream as it
/// is.
pub proof fn law_idle_flow_blocks_keep_the_stream(
    m: Machine,
    w: ChatterboxFlowTransformerBlock,
    plan: Plan,
    x: Term,
    len: u32,
)
    requires
        neutral(m),
        silent(m, false, plan.values()[w.out_weight as int]),
        blank(m, plan.values()[w.out_bias as int]),
        silent(m, false, plan.values()[w.ff2_weight as int]),
        blank(m, plan.values()[w.ff2_bias as int]),
    ensures
        alike(m, flow_fed_forward(w, plan, flow_attended(w, plan, x, len), len), x),
{
    let v = plan.values();
    let n = (256 * len) as u32;
    let mid = flow_attended(w, plan, x, len);
    let a = mid->args[1]->args[0]->args[0];
    let (c, d) = (v[w.out_weight as int], v[w.out_bias as int]);
    let p = add_bias_f16_inplace(matmul_f16(a, c, len, 256, 512), d, len, 256);
    assert(mid == add_inplace_f32_f16(x, p, n));
    lemma_blank_map(m, a, c, d, len, 256, 512);
    lemma_blank_added(m, x, p, n);
    let t = flow_fed_forward(w, plan, mid, len);
    let b = t->args[1]->args[0]->args[0];
    let (e, f) = (v[w.ff2_weight as int], v[w.ff2_bias as int]);
    let q = add_bias_f16_inplace(matmul_f16(b, e, len, 256, 1024), f, len, 256);
    assert(t == add_inplace_f32_f16(mid, q, n));
    lemma_blank_map(m, b, e, f, len, 256, 1024);
    lemma_blank_added(m, mid, q, n);
}

/// All weights of the perceiver go into `t`.
pub open spec fn uses_perceiver(t: Term, v: Seq<Term>, w: ChatterboxT3Frontend) -> bool {
    &&& made_from(t, v[w.perceiver_norm_weight as int])
    &&& made_from(t, v[w.perceiver_norm_bias as int])
    &&& made_from(t, v[w.perceiver_q_weight as int])
    &&& made_from(t, v[w.perceiver_q_bias as int])
    &&& made_from(t, v[w.perceiver_k_weight as int])
    &&& made_from(t, v[w.perceiver_k_bias as int])
    &&& made_from(t, v[w.perceiver_v_weight as int])
    &&& made_from(t, v[w.perceiver_v_bias as int])
    &&& made_from(t, v[w.perceiver_out_weight as int])
    &&& made_from(t, v[w.perceiver_out_bias as int])
}

proof fn lemma_perceived_origins(
    w: ChatterboxT3Frontend,
    plan: Plan,
    query: Term,
    query_rows: u32,
    context: Term,
    context_rows: u32,
)
    ensures
        ({
            let t = perceived(w, plan, query, query_rows, context, context_rows);
            &&& made_from(t, query)
            &&& made_from(t, context)
            &&& uses_perceiver(t, plan.values(), w)
        }),
{
    broadcast use group_origins;

    reveal(perceived);
    let v = plan.values();
    let a = normed(query, w, plan, query_rows);
    let b = normed(context, w, plan, context_rows);
    assert(made_from(a, query) && made_from(b, context));
    assert(made_from(a, v[w.perceiver_norm_weight as int]));
    assert(made_from(a, v[w.perceiver_norm_bias as int]));
}

/// A condition is made from the prompt, from the learnt query and from all
/// weights of the perceiver.
pub proof fn law_conditions_use_the_prompt(
    w: ChatterboxT3Frontend,
    plan: Plan,
    prompt: Term,
    rows: u32,
)
    ensures
        ({
            let t = w.perceiver_output(plan, prompt, rows);
            &&& made_from(t, prompt)
            &&& made_from(t, plan.values()[w.perceiver_query as int])
            &&& uses_perceiver(t, plan.values(), w)
        }),
{
    broadcast use group_origins;

    let query = copy_f16_at(
        plan.values()[w.perceiver_query as int],
        Term::Zeros(32768),
        32768,
        0,
    );
    let cross = perceived(w, plan, query, 32, prompt, rows);
    lemma_perceived_origins(w, plan, query, 32, prompt, rows);
    lemma_perceived_origins(w, plan, cross, 32, cross, 32);
}

/// A perceiver whose output adds nothing gives its query back.
pub proof fn law_idle_perceivers_keep_the_query(
    m: Machine,
    w: ChatterboxT3Frontend,
    plan: Plan,
    query: Term,
    query_rows: u32,
    context: Term,
    context_rows: u32,
)
    requires
        neutral(m),
        silent(m, false, plan.values()[w.perceiver_out_weight as int]),
        blank(m, plan.values()[w.perceiver_out_bias as int]),
    ensures
        alike(m, perceived(w, plan, query, query_rows, context, context_rows), query),
{
    reveal(perceived);
    let v = plan.values();
    let n = (1024 * query_rows) as u32;
    let t = perceived(w, plan, query, query_rows, context, context_rows);
    let a = t->args[1]->args[0]->args[0];
    let (c, d) = (v[w.perceiver_out_weight as int], v[w.perceiver_out_bias as int]);
    let p = linear(a, c, d, query_rows, 1024, 1024);
    assert(t == add_f16(query, p, n));
    lemma_blank_map(m, a, c, d, query_rows, 1024, 1024);
    lemma_blank_added(m, query, p, n);
}

/// Positioned tokens: the row of every token plus the row of its position,
/// counted from `first`.
pub proof fn law_tokens_are_added_to_their_positions(
    m: Machine,
    table: Term,
    positions: Term,
    tokens: Seq<i32>,
    first: int,
    i: int,
    c: int,
)
    requires
        0 <= first,
        first + tokens.len() <= i32::MAX,
        0 <= i < tokens.len(),
        0 <= c < 1024,
    ensures
        numbers(m, positioned(table, positions, tokens, first))(i * 1024 + c) == (m.add)(
            numbers(m, table)(tokens[i] * 1024 + c),
            numbers(m, positions)((first + i) * 1024 + c),
        ),
{
    broadcast use group_numbers;

    let rows = tokens.len() as u32;
    let places = consecutive(first, tokens.len());
    let a = gather_rows_f16(table, Term::Integers(tokens), rows, 1024);
    let b = gather_rows_f16(positions, Term::Integers(places), rows, 1024);
    assert(a->args.len() == 2 && b->args.len() == 2);
    let t = add_f16(a, b, (1024 * rows) as u32);
    assert(t->args.len() == 2);
    let j = i * 1024 + c;
    assert(j / 1024 == i && j % 1024 == c);
    assert(numbers(m, a)(j) == numbers(m, table)(tokens[i] * 1024 + c));
    assert(numbers(m, b)(j) == numbers(m, positions)(places[i] * 1024 + c));
}

/// What a conformer's network adds has passed its activation: where that gives
/// nothing, the stream stays as it is.
pub proof fn law_conformer_networks_are_activated(
    m: Machine,
    w: ChatterboxS3ConformerLayer,
    plan: Plan,
    x: Term,
    len: u32,
)
    requires
        neutral(m),
        still(m),
        quiet(m, Kernel::SiluActF16),
        blank(m, plan.values()[w.ff2_bias as int]),
    ensures
        alike(m, conformer_fed_forward(w, plan, x, len), x),
{
    let v = plan.values();
    let t = conformer_fed_forward(w, plan, x, len);
    let a = t->args[1]->args[0]->args[0];
    let inner = a->args[0];
    assert(a == silu_act_f16(inner, (2048 * len) as u32));
    lemma_quiet(m, inner, (2048 * len) as u32);
    let (e, f) = (v[w.ff2_weight as int], v[w.ff2_bias as int]);
    lemma_blank_through(m, a, e, f, len, 512, 2048);
    assert(t == add_inplace_f32_f16(x, linear(a, e, f, len, 512, 2048), (512 * len) as u32));
    lemma_blank_added(m, x, linear(a, e, f, len, 512, 2048), (512 * len) as u32);
}

/// What the network of a block of the flow adds has passed its activation: where
/// that gives nothing, the stream stays as it is.
pub proof fn law_flow_networks_are_activated(
    m: Machine,
    w: ChatterboxFlowTransformerBlock,
    plan: Plan,
    x: Term,
    len: u32,
)
    requires
        neutral(m),
        still(m),
        quiet(m, Kernel::GeluErfF16),
        blank(m, plan.values()[w.ff2_bias as int]),
    ensures
        alike(m, flow_fed_forward(w, plan, x, len), x),
{
    let v = plan.values();
    let t = flow_fed_forward(w, plan, x, len);
    let a = t->args[1]->args[0]->args[0];
    let inner = a->args[0];
    assert(a == gelu_erf_f16(inner, (1024 * len) as u32));
    lemma_quiet(m, inner, (1024 * len) as u32);
    let (e, f) = (v[w.ff2_weight as int], v[w.ff2_bias as int]);
    lemma_blank_through(m, a, e, f, len, 256, 1024);
    assert(t == add_inplace_f32_f16(x, linear(a, e, f, len, 256, 1024), (256 * len) as u32));
    lemma_blank_added(m, x, linear(a, e, f, len, 256, 1024), (256 * len) as u32);
}

/// Every row of a condition comes from its own input: the speaker's from the
/// speaker, the emotion's from the emotion, the prompt's from the prompt's
/// tokens, each by weights of its own.
pub proof fn law_condition_rows_have_their_own_inputs(
    w: ChatterboxT3Frontend,
    plan: Plan,
    after: Plan,
    rows: ConditionRows,
    speaker: Term,
    emotion: Term,
    prompt: Seq<i32>,
)
    requires
        w.conditioned(plan, after, rows, speaker, emotion, prompt),
    ensures
        ({
            let v = plan.values();
            let a = after.values()[rows.speaker as int];
            let b = after.values()[rows.emotion as int];
            let c = after.values()[rows.prompt as int];
            &&& made_from(a, speaker)
            &&& made_from(a, v[w.speaker_weight as int])
            &&& made_from(a, v[w.speaker_bias as int])
            &&& made_from(b, emotion)
            &&& made_from(b, v[w.emotion_weight as int])
            &&& made_from(c, Term::Integers(prompt))
            &&& made_from(c, Term::Integers(consecutive(0, prompt.len())))
            &&& made_from(c, v[w.speech_embedding as int])
            &&& made_from(c, v[w.speech_position as int])
            &&& made_from(c, v[w.perceiver_query as int])
            &&& uses_perceiver(c, v, w)
        }),
{
    broadcast use group_origins;

    let v = plan.values();
    let n = prompt.len() as u32;
    let p = v[w.speech_position as int];
    let x = gather_rows_f16(v[w.speech_embedding as int], Term::Integers(prompt), n, 1024);
    let y = gather_rows_f16(p, Term::Integers(consecutive(0, prompt.len())), n, 1024);
    assert(x->args.len() == 2 && y->args.len() == 2);
    let z = positioned(v[w.speech_embedding as int], p, prompt, 0);
    assert(made_from(z, x) && made_from(z, y));
    assert(made_from(x, Term::Integers(prompt)) && made_from(x, v[w.speech_embedding as int]));
    assert(made_from(y, p) && made_from(y, Term::Integers(consecutive(0, prompt.len()))));
    law_conditions_use_the_prompt(w, plan, z, n);
}

} // verus!
