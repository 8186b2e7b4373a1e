//! What the parts of Kokoro are made from: every input and every weight has its
//! share in what comes out, layers follow one another in order, and residual
//! blocks that add nothing pass on what they are given.
use vstd::prelude::*;
use crate::device::{EPS_1E12, Plan, Scalar, Term};
use crate::device::compound::{ConvShape, conv1d, unfolded_conv, widened_norm};
use crate::device::idle::{lemma_blank_added, lemma_blank_map};
use crate::device::kernels::Kernel;
use crate::device::meaning::{
    Machine, alike, blank, group_numbers, group_origins, made_from, neutral, numbers, piece, silent,
};
use crate::device::value::{
    add_f16, conv_transpose1d_depthwise_f16, copy_f16_to_f32, gather_rows_f16, gelu_erf_f16, leaky_relu_f16, matmul_f16,
    mha_naive_full, scale_f16, snake_f16, transpose_f16,
};
use crate::kokoro::adain::{
    AdaIn, FRAC_1_SQRT_2, KokoroAdaInResBlock, block_rows, frames_out, keeping, residual, shortcut, styled,
};
use crate::kokoro::albert::{
    KokoroAlbert, apply, attended, embedded, encoded, layer_output, layers_output, residual_norm, uploaded,
};
use crate::kokoro::checkpoint::{Conv, Linear};
use crate::kokoro::decoder::{
    KokoroDecoderFrontend, conv_rows, decoded, decoder_input, encoder_input, halving, narrowing,
};
use crate::kokoro::f0::{
    Branch, KokoroF0Noise, Projection, branch_output, pitch_and_noise, projecting,
};
use crate::kokoro::generator::{
    GeneratorStage, KokoroGenerator, ONE_THIRD, SLOPE_0_01, SLOPE_0_1, fused, post_shape, spectrum,
    stage_frames, stage_output,
};
use crate::kokoro::generator_res;
use crate::kokoro::generator_res::{
    KokoroGeneratorResBlock, Stage, dilated, half_output, res_output,
};
use crate::kokoro::lstm::{KokoroBiLstm, LstmDirection, direction_output, lstm_output, lstm_steps};
use crate::kokoro::prosody::{DurationLayer, KokoroProsodyFrontend, duration_input, layer_rows, with_style};
use crate::kokoro::text::{ConvBlock, KokoroTextEncoder, SLOPE_0_2, block_output, text_rows};
use crate::kokoro::upsample::{ConvTranspose, phases_output, upsampled};

verus! {

/// The weight and the bias of a linear map go into `t`.
pub open spec fn uses_map(t: Term, v: Seq<Term>, map: Linear) -> bool {
    made_from(t, v[map.weight as int]) && made_from(t, v[map.bias as int])
}

/// The weight and the bias of a convolution go into `t`.
pub open spec fn uses_conv(t: Term, v: Seq<Term>, conv: Conv) -> bool {
    made_from(t, v[conv.weight as int]) && made_from(t, v[conv.bias as int])
}

/// The weight and the bias of a style's map go into `t`.
pub open spec fn uses_style_map(t: Term, v: Seq<Term>, norm: AdaIn) -> bool {
    made_from(t, v[norm.weight as int]) && made_from(t, v[norm.bias as int])
}

/// The weights and biases of one direction go into `t`.
pub open spec fn uses_direction(t: Term, v: Seq<Term>, w: LstmDirection) -> bool {
    &&& made_from(t, v[w.weight_ih as int])
    &&& made_from(t, v[w.weight_hh as int])
    &&& made_from(t, v[w.bias_ih as int])
    &&& made_from(t, v[w.bias_hh as int])
}

/// The weights and biases of both directions go into `t`.
pub open spec fn uses_lstm(t: Term, v: Seq<Term>, w: KokoroBiLstm) -> bool {
    uses_direction(t, v, w.forward) && uses_direction(t, v, w.reverse)
}

/// The weights of the layer that the encoder repeats go into `t`.
pub open spec fn uses_albert_layer(t: Term, v: Seq<Term>, w: KokoroAlbert) -> bool {
    &&& uses_map(t, v, w.query)
    &&& uses_map(t, v, w.key)
    &&& uses_map(t, v, w.value)
    &&& uses_map(t, v, w.attention_output)
    &&& uses_map(t, v, w.ffn)
    &&& uses_map(t, v, w.ffn_output)
    &&& made_from(t, v[w.attention_norm_weight as int])
    &&& made_from(t, v[w.attention_norm_bias as int])
    &&& made_from(t, v[w.final_norm_weight as int])
    &&& made_from(t, v[w.final_norm_bias as int])
}

/// The tokens and all weights of the encoder go into `t`.
pub open spec fn uses_albert(t: Term, v: Seq<Term>, w: KokoroAlbert, ids: Seq<usize>) -> bool {
    &&& made_from(t, Term::Integers(uploaded(ids)))
    &&& made_from(t, v[w.word_embeddings as int])
    &&& made_from(t, v[w.position_embeddings as int])
    &&& made_from(t, v[w.token_type_embeddings as int])
    &&& made_from(t, v[w.embedding_norm_weight as int])
    &&& made_from(t, v[w.embedding_norm_bias as int])
    &&& uses_map(t, v, w.embedding_projection)
    &&& uses_map(t, v, w.output_projection)
    &&& w.passes > 0 ==> uses_albert_layer(t, v, w)
}

/// The weights of a duration layer go into `t`.
pub open spec fn uses_layer(t: Term, v: Seq<Term>, w: DurationLayer) -> bool {
    uses_lstm(t, v, w.lstm) && uses_style_map(t, v, w.norm)
}

proof fn lemma_apply_origins(v: Seq<Term>, map: Linear, x: Term, rows: u32, input: u32, output: u32)
    ensures
        made_from(apply(v, map, x, rows, input, output), x),
        uses_map(apply(v, map, x, rows, input, output), v, map),
{
    broadcast use group_origins;

}

proof fn lemma_norm_origins(x: Term, weight: Term, bias: Term, rows: u32, dim: u32, eps: Scalar)
    ensures
        made_from(widened_norm(x, weight, bias, rows, dim, eps), x),
        made_from(widened_norm(x, weight, bias, rows, dim, eps), weight),
        made_from(widened_norm(x, weight, bias, rows, dim, eps), bias),
{
    broadcast use group_origins;

}

proof fn lemma_albert_layer_origins(w: KokoroAlbert, v: Seq<Term>, hidden: Term, tokens: u32)
    ensures
        made_from(layer_output(w, v, hidden, tokens), hidden),
        uses_albert_layer(layer_output(w, v, hidden, tokens), v, w),
{
    broadcast use group_origins;

    reveal(layer_output);
    let q = apply(v, w.query, hidden, tokens, 768, 768);
    let k = apply(v, w.key, hidden, tokens, 768, 768);
    let u = apply(v, w.value, hidden, tokens, 768, 768);
    lemma_apply_origins(v, w.query, hidden, tokens, 768, 768);
    lemma_apply_origins(v, w.key, hidden, tokens, 768, 768);
    lemma_apply_origins(v, w.value, hidden, tokens, 768, 768);
    let a = mha_naive_full(
        q,
        k,
        u,
        64,
        12,
        12,
        tokens,
        tokens,
        Scalar::InverseSqrt(64),
        Scalar::Single(0),
    );
    lemma_apply_origins(v, w.attention_output, a, tokens, 768, 768);
    let b = attended(w, v, hidden, tokens);
    let sum = add_f16(hidden, b, (tokens * 768) as u32);
    let eps = Scalar::Single(EPS_1E12);
    lemma_norm_origins(
        sum,
        v[w.attention_norm_weight as int],
        v[w.attention_norm_bias as int],
        tokens,
        768,
        eps,
    );
    let middle = residual_norm(
        hidden,
        b,
        v[w.attention_norm_weight as int],
        v[w.attention_norm_bias as int],
        tokens,
    );
    let wide = apply(v, w.ffn, middle, tokens, 768, 2048);
    lemma_apply_origins(v, w.ffn, middle, tokens, 768, 2048);
    let active = gelu_erf_f16(wide, (tokens * 2048) as u32);
    let c = apply(v, w.ffn_output, active, tokens, 2048, 768);
    lemma_apply_origins(v, w.ffn_output, active, tokens, 2048, 768);
    let last = add_f16(middle, c, (tokens * 768) as u32);
    lemma_norm_origins(
        last,
        v[w.final_norm_weight as int],
        v[w.final_norm_bias as int],
        tokens,
        768,
        eps,
    );
}

proof fn lemma_albert_layers_origins(w: KokoroAlbert, v: Seq<Term>, hidden: Term, tokens: u32, n: nat)
    ensures
        made_from(layers_output(w, v, hidden, tokens, n), hidden),
        n > 0 ==> uses_albert_layer(layers_output(w, v, hidden, tokens, n), v, w),
    decreases n,
{
    if n > 0 {
        let before = layers_output(w, v, hidden, tokens, (n - 1) as nat);
        lemma_albert_layers_origins(w, v, hidden, tokens, (n - 1) as nat);
        lemma_albert_layer_origins(w, v, before, tokens);
    }
}

/// Encoded phonemes are made from the tokens and from every weight of the
/// encoder.
pub proof fn law_encodings_use_every_weight(w: KokoroAlbert, v: Seq<Term>, ids: Seq<usize>)
    ensures
        uses_albert(encoded(w, v, ids), v, w, ids),
{
    broadcast use group_origins;

    let tokens = ids.len() as u32;
    let e = embedded(w, v, ids);
    let x = layers_output(w, v, e, tokens, w.passes as nat);
    lemma_albert_layers_origins(w, v, e, tokens, w.passes as nat);
    lemma_apply_origins(v, w.output_projection, x, tokens, 768, 512);
}

proof fn lemma_steps_origins(
    w: LstmDirection,
    plan: Plan,
    gates: Term,
    frames: int,
    hidden_size: u32,
    reverse: bool,
    n: nat,
)
    requires
        n > 0,
    ensures
        ({
            let t = lstm_steps(w, plan, gates, frames, hidden_size, reverse, n).output;
            &&& made_from(t, gates)
            &&& made_from(t, plan.values()[w.weight_hh as int])
            &&& made_from(t, plan.values()[w.bias_ih as int])
            &&& made_from(t, plan.values()[w.bias_hh as int])
        }),
{
    broadcast use group_origins;

    let s = lstm_steps(w, plan, gates, frames, hidden_size, reverse, (n - 1) as nat);
    let product = matmul_f16(
        s.hidden,
        plan.values()[w.weight_hh as int],
        1,
        (4 * hidden_size) as u32,
        hidden_size,
    );
    let t = lstm_steps(w, plan, gates, frames, hidden_size, reverse, n).output;
    assert(t->args.len() == 7);
    assert(t->args[0] == gates && t->args[1] == product);
    assert(t->args[2] == plan.values()[w.bias_ih as int]);
    assert(t->args[3] == plan.values()[w.bias_hh as int]);
}

proof fn lemma_direction_origins(
    w: LstmDirection,
    plan: Plan,
    input: Term,
    frames: int,
    input_size: u32,
    hidden_size: u32,
    reverse: bool,
)
    requires
        frames > 0,
    ensures
        ({
            let t = direction_output(w, plan, input, frames, input_size, hidden_size, reverse);
            made_from(t, input) && uses_direction(t, plan.values(), w)
        }),
{
    broadcast use group_origins;

    reveal(direction_output);
    let gates = matmul_f16(
        input,
        plan.values()[w.weight_ih as int],
        frames as u32,
        (4 * hidden_size) as u32,
        input_size,
    );
    lemma_steps_origins(w, plan, gates, frames, hidden_size, reverse, frames as nat);
}

/// What a recurrent layer puts out is made from its input and from the weights
/// of both directions.
pub proof fn law_recurrence_uses_both_directions(w: KokoroBiLstm, plan: Plan, input: Term, frames: int)
    requires
        frames > 0,
    ensures
        made_from(lstm_output(w, plan, input, frames), input),
        uses_lstm(lstm_output(w, plan, input, frames), plan.values(), w),
{
    broadcast use group_origins;

    let (i, h) = (w.input_size as u32, w.hidden_size as u32);
    lemma_direction_origins(w.forward, plan, input, frames, i, h, false);
    lemma_direction_origins(w.reverse, plan, input, frames, i, h, true);
}

proof fn lemma_layer_origins(w: DurationLayer, plan: Plan, rows: Term, style: Term, frames: u32)
    requires
        frames > 0,
    ensures
        made_from(layer_rows(w, plan, rows, style, frames), rows),
        made_from(layer_rows(w, plan, rows, style, frames), style),
        uses_layer(layer_rows(w, plan, rows, style, frames), plan.values(), w),
{
    broadcast use group_origins;

    let x = with_style(rows, style, frames);
    law_recurrence_uses_both_directions(w.lstm, plan, x, frames as int);
}

/// The three duration layers follow one another: each reads the rows of the one
/// before, the first those of the encoder.
pub proof fn law_duration_layers_follow_one_another(
    w: KokoroProsodyFrontend,
    plan: Plan,
    ids: Seq<usize>,
    style: Term,
)
    ensures
        ({
            let frames = ids.len() as u32;
            let rows = seq![w.first, w.second, w.third].fold_left(
                encoded(w.albert, plan.values(), ids),
                |rows: Term, layer: DurationLayer| layer_rows(layer, plan, rows, style, frames),
            );
            duration_input(w, plan, ids, style) == with_style(rows, style, frames)
        }),
{
    let frames = ids.len() as u32;
    let f = |rows: Term, layer: DurationLayer| layer_rows(layer, plan, rows, style, frames);
    let all = seq![w.first, w.second, w.third];
    let start = encoded(w.albert, plan.values(), ids);
    reveal_with_fuel(Seq::fold_left, 4);
    assert(all.drop_last() =~= seq![w.first, w.second]);
    assert(all.drop_last().drop_last() =~= seq![w.first]);
    assert(all.drop_last().drop_last().drop_last() =~= Seq::empty());
    assert(all.fold_left(start, f) == f(f(f(start, w.first), w.second), w.third));
}

/// The rows that durations are read off are made from the tokens, from the
/// style and from the weights of the encoder and of all three duration layers.
pub proof fn law_durations_use_every_layer(
    w: KokoroProsodyFrontend,
    plan: Plan,
    ids: Seq<usize>,
    style: Term,
)
    requires
        0 < ids.len() <= u32::MAX,
    ensures
        ({
            let t = duration_input(w, plan, ids, style);
            &&& made_from(t, style)
            &&& uses_albert(t, plan.values(), w.albert, ids)
            &&& uses_layer(t, plan.values(), w.first)
            &&& uses_layer(t, plan.values(), w.second)
            &&& uses_layer(t, plan.values(), w.third)
        }),
{
    broadcast use group_origins;

    let frames = ids.len() as u32;
    let e = encoded(w.albert, plan.values(), ids);
    law_encodings_use_every_weight(w.albert, plan.values(), ids);
    let a = layer_rows(w.first, plan, e, style, frames);
    let b = layer_rows(w.second, plan, a, style, frames);
    let c = layer_rows(w.third, plan, b, style, frames);
    lemma_layer_origins(w.first, plan, e, style, frames);
    lemma_layer_origins(w.second, plan, a, style, frames);
    lemma_layer_origins(w.third, plan, b, style, frames);
}

/// Other tokens or another style give other rows to read durations off.
pub proof fn law_durations_tell_styles_apart(
    w: KokoroProsodyFrontend,
    plan: Plan,
    ids: Seq<usize>,
    style: Term,
    other: Term,
)
    requires
        style != other,
    ensures
        duration_input(w, plan, ids, style) != duration_input(w, plan, ids, other),
{
    assert(duration_input(w, plan, ids, style)->args[1] == style);
    assert(duration_input(w, plan, ids, other)->args[1] == other);
}

/// The weights of a text block go into `t`.
pub open spec fn uses_text_block(t: Term, v: Seq<Term>, w: ConvBlock) -> bool {
    &&& uses_conv(t, v, w.conv)
    &&& made_from(t, v[w.norm_weight as int])
    &&& made_from(t, v[w.norm_bias as int])
}

proof fn lemma_text_block_origins(w: ConvBlock, v: Seq<Term>, rows: Term, frames: u32)
    ensures
        made_from(block_output(w, v, rows, frames), rows),
        uses_text_block(block_output(w, v, rows, frames), v, w),
{
    broadcast use group_origins;

}

/// The three blocks of the text encoder follow one another, and the recurrent
/// layer reads the last of them.
pub proof fn law_text_blocks_follow_one_another(w: KokoroTextEncoder, plan: Plan, ids: Seq<usize>)
    ensures
        ({
            let frames = ids.len() as u32;
            let rows = seq![w.first, w.second, w.third].fold_left(
                gather_rows_f16(
                    plan.values()[w.embedding as int],
                    Term::Integers(uploaded(ids)),
                    frames,
                    512,
                ),
                |rows: Term, block: ConvBlock| block_output(block, plan.values(), rows, frames),
            );
            text_rows(w, plan, ids) == lstm_output(w.lstm, plan, rows, frames as int)
        }),
{
    let frames = ids.len() as u32;
    let f = |rows: Term, block: ConvBlock| block_output(block, plan.values(), rows, frames);
    let all = seq![w.first, w.second, w.third];
    let start = gather_rows_f16(
        plan.values()[w.embedding as int],
        Term::Integers(uploaded(ids)),
        frames,
        512,
    );
    reveal_with_fuel(Seq::fold_left, 4);
    assert(all.drop_last() =~= seq![w.first, w.second]);
    assert(all.drop_last().drop_last() =~= seq![w.first]);
    assert(all.drop_last().drop_last().drop_last() =~= Seq::empty());
    assert(all.fold_left(start, f) == f(f(f(start, w.first), w.second), w.third));
}

/// Text rows are made from the tokens and from every weight of the text encoder.
pub proof fn law_text_uses_every_weight(w: KokoroTextEncoder, plan: Plan, ids: Seq<usize>)
    requires
        0 < ids.len() <= u32::MAX,
    ensures
        ({
            let t = text_rows(w, plan, ids);
            &&& made_from(t, Term::Integers(uploaded(ids)))
            &&& made_from(t, plan.values()[w.embedding as int])
            &&& uses_text_block(t, plan.values(), w.first)
            &&& uses_text_block(t, plan.values(), w.second)
            &&& uses_text_block(t, plan.values(), w.third)
            &&& uses_lstm(t, plan.values(), w.lstm)
        }),
{
    broadcast use group_origins;

    let v = plan.values();
    let frames = ids.len() as u32;
    let e = gather_rows_f16(v[w.embedding as int], Term::Integers(uploaded(ids)), frames, 512);
    assert(e->args.len() == 2);
    let a = block_output(w.first, v, e, frames);
    let b = block_output(w.second, v, a, frames);
    let c = block_output(w.third, v, b, frames);
    lemma_text_block_origins(w.first, v, e, frames);
    lemma_text_block_origins(w.second, v, a, frames);
    lemma_text_block_origins(w.third, v, b, frames);
    law_recurrence_uses_both_directions(w.lstm, plan, c, frames as int);
}

/// The weights of a styled residual block go into `t`.
pub open spec fn uses_block(t: Term, v: Seq<Term>, w: KokoroAdaInResBlock) -> bool {
    &&& uses_conv(t, v, w.conv1)
    &&& uses_conv(t, v, w.conv2)
    &&& uses_style_map(t, v, w.norm1)
    &&& uses_style_map(t, v, w.norm2)
    &&& w.upsample ==> uses_conv(t, v, w.pool)
    &&& w.input != w.output ==> made_from(t, v[w.shortcut + 1])
}

proof fn lemma_styled_origins(
    w: AdaIn,
    v: Seq<Term>,
    x: Term,
    style: Term,
    channels: u32,
    frames: u32,
)
    ensures
        made_from(styled(w, v, x, style, channels, frames), x),
        made_from(styled(w, v, x, style, channels, frames), style),
        uses_style_map(styled(w, v, x, style, channels, frames), v, w),
{
    broadcast use group_origins;

}

proof fn lemma_conv_origins(x: Term, weight: Term, bias: Term, shape: ConvShape, frames: u32, out: u32)
    ensures
        made_from(conv1d(x, weight, bias, shape, frames, out), x),
        made_from(conv1d(x, weight, bias, shape, frames, out), weight),
        made_from(conv1d(x, weight, bias, shape, frames, out), bias),
{
    broadcast use group_origins;

}

/// A styled residual block is made from its rows, from the style and from all
/// of its weights.
pub proof fn law_blocks_use_every_weight(
    w: KokoroAdaInResBlock,
    v: Seq<Term>,
    rows: Term,
    style: Term,
    frames: u32,
)
    ensures
        made_from(block_rows(w, v, rows, style, frames), rows),
        made_from(block_rows(w, v, rows, style, frames), style),
        uses_block(block_rows(w, v, rows, style, frames), v, w),
{
    broadcast use group_origins;

    reveal(residual);
    reveal(shortcut);
    let out = frames_out(w, frames as int) as u32;
    let slope = Scalar::Single(SLOPE_0_2);
    let channels = transpose_f16(rows, frames, w.input);
    let a = styled(w.norm1, v, channels, style, w.input, frames);
    lemma_styled_origins(w.norm1, v, channels, style, w.input, frames);
    let first = leaky_relu_f16(a, (w.input * frames) as u32, slope);
    let pooled = if w.upsample {
        conv_transpose1d_depthwise_f16(
            first,
            v[w.pool.weight as int],
            v[w.pool.bias as int],
            w.input,
            frames,
            out,
            3,
            2,
            1,
        )
    } else {
        first
    };
    assert(made_from(pooled, first));
    let shape = keeping(w.input, w.output, 3);
    let middle = conv1d(
        pooled,
        v[w.conv1.weight as int],
        v[w.conv1.bias as int],
        shape,
        out,
        out,
    );
    lemma_conv_origins(pooled, v[w.conv1.weight as int], v[w.conv1.bias as int], shape, out, out);
    let b = styled(w.norm2, v, middle, style, w.output, out);
    lemma_styled_origins(w.norm2, v, middle, style, w.output, out);
    let c = leaky_relu_f16(b, (w.output * out) as u32, slope);
    lemma_conv_origins(
        c,
        v[w.conv2.weight as int],
        v[w.conv2.bias as int],
        keeping(w.output, w.output, 3),
        out,
        out,
    );
    let r = residual(w, v, channels, style, frames);
    assert(made_from(r, channels));
    let side = shortcut(w, v, channels, frames);
    let n = (w.output * out) as u32;
    let sum = add_f16(r, side, n);
    assert(made_from(sum, r) && made_from(sum, side));
}

/// A convolution gives nothing, whatever it reads.
pub open spec fn silent_conv(m: Machine, v: Seq<Term>, conv: Conv) -> bool {
    forall|x: Term, shape: ConvShape, frames: u32, out: u32|
        blank(
            m,
            #[trigger] conv1d(x, v[conv.weight as int], v[conv.bias as int], shape, frames, out),
        )
}

/// Where its second convolution adds nothing, a block of one width that keeps
/// its frames hands its channels on, scaled.
pub proof fn law_idle_blocks_scale_their_rows(
    m: Machine,
    w: KokoroAdaInResBlock,
    v: Seq<Term>,
    rows: Term,
    style: Term,
    frames: u32,
)
    requires
        neutral(m),
        silent_conv(m, v, w.conv2),
        w.input == w.output,
        !w.upsample,
    ensures
        ({
            let n = (w.output * frames) as u32;
            alike(
                m,
                block_rows(w, v, rows, style, frames),
                transpose_f16(
                    scale_f16(
                        transpose_f16(rows, frames, w.input),
                        n,
                        Scalar::Single(FRAC_1_SQRT_2),
                    ),
                    w.output,
                    frames,
                ),
            )
        }),
{
    broadcast use group_numbers;

    reveal(residual);
    reveal(shortcut);
    let n = (w.output * frames) as u32;
    let channels = transpose_f16(rows, frames, w.input);
    let r = residual(w, v, channels, style, frames);
    assert(blank(m, r));
    let sum = add_f16(r, channels, n);
    assert(sum->args.len() == 2);
    let scale = Scalar::Single(FRAC_1_SQRT_2);
    let a = scale_f16(sum, n, scale);
    let b = scale_f16(channels, n, scale);
    assert(a->args.len() == 1 && b->args.len() == 1);
    let ta = transpose_f16(a, w.output, frames);
    let tb = transpose_f16(b, w.output, frames);
    assert(ta->args.len() == 1 && tb->args.len() == 1);
    assert forall|j: int| #[trigger] numbers(m, ta)(j) == numbers(m, tb)(j) by {
        let i = j % (w.output as int) * frames + j / (w.output as int);
        assert(numbers(m, ta)(j) == numbers(m, a)(i));
        assert(numbers(m, tb)(j) == numbers(m, b)(i));
        assert(numbers(m, sum)(i) == (m.add)(numbers(m, r)(i), numbers(m, channels)(i)));
    }
}

/// Pitch and noise are made from the shared rows, from the style and from the
/// weights of all three blocks and of the projection.
pub proof fn law_pitch_uses_every_weight(
    w: Branch,
    projection: Projection,
    v: Seq<Term>,
    shared: Term,
    style: Term,
    frames: u32,
)
    ensures
        ({
            let t = branch_output(w, projection, v, shared, style, frames);
            &&& made_from(t, shared)
            &&& made_from(t, style)
            &&& uses_block(t, v, w.first)
            &&& uses_block(t, v, w.second)
            &&& uses_block(t, v, w.third)
            &&& made_from(t, v[projection.weight as int])
            &&& made_from(t, v[projection.bias as int])
        }),
{
    broadcast use group_origins;

    let twice = (2 * frames) as u32;
    let a = block_rows(w.first, v, shared, style, frames);
    let b = block_rows(w.second, v, a, style, frames);
    let c = block_rows(w.third, v, b, style, twice);
    law_blocks_use_every_weight(w.first, v, shared, style, frames);
    law_blocks_use_every_weight(w.second, v, a, style, frames);
    law_blocks_use_every_weight(w.third, v, b, style, twice);
    let d = transpose_f16(c, twice, 256);
    lemma_conv_origins(
        d,
        v[projection.weight as int],
        v[projection.bias as int],
        projecting(),
        twice,
        twice,
    );
}

proof fn lemma_conv_rows_origins(w: Conv, v: Seq<Term>, rows: Term, shape: ConvShape, frames: u32)
    ensures
        made_from(conv_rows(w, v, rows, shape, frames), rows),
        uses_conv(conv_rows(w, v, rows, shape, frames), v, w),
{
    broadcast use group_origins;

}

proof fn lemma_decoder_input_origins(hidden: Term, asr: Term, f0: Term, noise: Term, frames: u32)
    ensures
        ({
            let t = decoder_input(hidden, asr, f0, noise, frames);
            made_from(t, hidden) && made_from(t, asr) && made_from(t, f0) && made_from(t, noise)
        }),
{
    broadcast use group_origins;

}

/// Decoded frames are made from the text, the pitch, the noise and the style,
/// and from all weights of the decoder.
pub proof fn law_decoding_uses_every_weight(
    w: KokoroDecoderFrontend,
    v: Seq<Term>,
    asr: Term,
    f0: Term,
    noise: Term,
    style: Term,
    frames: u32,
)
    ensures
        ({
            let t = decoded(w, v, asr, f0, noise, style, frames);
            &&& made_from(t, asr)
            &&& made_from(t, f0)
            &&& made_from(t, noise)
            &&& made_from(t, style)
            &&& uses_conv(t, v, w.f0_conv)
            &&& uses_conv(t, v, w.noise_conv)
            &&& uses_conv(t, v, w.asr_projection)
            &&& uses_block(t, v, w.encode)
            &&& uses_block(t, v, w.first)
            &&& uses_block(t, v, w.second)
            &&& uses_block(t, v, w.third)
            &&& uses_block(t, v, w.fourth)
        }),
{
    broadcast use group_origins;

    let twice = (2 * frames) as u32;
    let pitch = conv_rows(w.f0_conv, v, f0, halving(), twice);
    let hiss = conv_rows(w.noise_conv, v, noise, halving(), twice);
    let narrow = conv_rows(w.asr_projection, v, asr, narrowing(), frames);
    lemma_conv_rows_origins(w.f0_conv, v, f0, halving(), twice);
    lemma_conv_rows_origins(w.noise_conv, v, noise, halving(), twice);
    lemma_conv_rows_origins(w.asr_projection, v, asr, narrowing(), frames);
    let x = encoder_input(asr, pitch, hiss, frames);
    let h0 = block_rows(w.encode, v, x, style, frames);
    law_blocks_use_every_weight(w.encode, v, x, style, frames);
    let x0 = decoder_input(h0, narrow, pitch, hiss, frames);
    lemma_decoder_input_origins(h0, narrow, pitch, hiss, frames);
    let h1 = block_rows(w.first, v, x0, style, frames);
    law_blocks_use_every_weight(w.first, v, x0, style, frames);
    let x1 = decoder_input(h1, narrow, pitch, hiss, frames);
    lemma_decoder_input_origins(h1, narrow, pitch, hiss, frames);
    let h2 = block_rows(w.second, v, x1, style, frames);
    law_blocks_use_every_weight(w.second, v, x1, style, frames);
    let x2 = decoder_input(h2, narrow, pitch, hiss, frames);
    lemma_decoder_input_origins(h2, narrow, pitch, hiss, frames);
    let h3 = block_rows(w.third, v, x2, style, frames);
    law_blocks_use_every_weight(w.third, v, x2, style, frames);
    let x3 = decoder_input(h3, narrow, pitch, hiss, frames);
    lemma_decoder_input_origins(h3, narrow, pitch, hiss, frames);
    law_blocks_use_every_weight(w.fourth, v, x3, style, frames);
}

/// The four decoding blocks follow one another, and each of them is shown the
/// narrowed text, the pitch and the noise again, after the rows of the block
/// before.
pub proof fn law_decoding_blocks_follow_one_another(
    w: KokoroDecoderFrontend,
    v: Seq<Term>,
    asr: Term,
    f0: Term,
    noise: Term,
    style: Term,
    frames: u32,
)
    ensures
        ({
            let twice = (2 * frames) as u32;
            let pitch = conv_rows(w.f0_conv, v, f0, halving(), twice);
            let hiss = conv_rows(w.noise_conv, v, noise, halving(), twice);
            let narrow = conv_rows(w.asr_projection, v, asr, narrowing(), frames);
            decoded(w, v, asr, f0, noise, style, frames) == seq![
                w.first,
                w.second,
                w.third,
                w.fourth,
            ].fold_left(
                block_rows(w.encode, v, encoder_input(asr, pitch, hiss, frames), style, frames),
                |rows: Term, block: KokoroAdaInResBlock|
                    block_rows(
                        block,
                        v,
                        decoder_input(rows, narrow, pitch, hiss, frames),
                        style,
                        frames,
                    ),
            )
        }),
{
    let twice = (2 * frames) as u32;
    let pitch = conv_rows(w.f0_conv, v, f0, halving(), twice);
    let hiss = conv_rows(w.noise_conv, v, noise, halving(), twice);
    let narrow = conv_rows(w.asr_projection, v, asr, narrowing(), frames);
    let f = |rows: Term, block: KokoroAdaInResBlock|
        block_rows(block, v, decoder_input(rows, narrow, pitch, hiss, frames), style, frames);
    let start = block_rows(w.encode, v, encoder_input(asr, pitch, hiss, frames), style, frames);
    let all = seq![w.first, w.second, w.third, w.fourth];
    reveal_with_fuel(Seq::fold_left, 5);
    assert(all.drop_last() =~= seq![w.first, w.second, w.third]);
    assert(all.drop_last().drop_last() =~= seq![w.first, w.second]);
    assert(all.drop_last().drop_last().drop_last() =~= seq![w.first]);
    assert(all.drop_last().drop_last().drop_last().drop_last() =~= Seq::empty());
    assert(all.fold_left(start, f) == f(f(f(f(start, w.first), w.second), w.third), w.fourth));
}

/// The weights of one pair of a generator's residual block go into `t`.
pub open spec fn uses_pair(t: Term, v: Seq<Term>, w: Stage) -> bool {
    &&& uses_conv(t, v, w.conv1)
    &&& uses_conv(t, v, w.conv2)
    &&& uses_style_map(t, v, w.norm1)
    &&& uses_style_map(t, v, w.norm2)
    &&& made_from(t, v[w.alpha1 as int])
    &&& made_from(t, v[w.alpha2 as int])
}

/// The weights of a generator's residual block go into `t`.
pub open spec fn uses_res(t: Term, v: Seq<Term>, w: KokoroGeneratorResBlock) -> bool {
    uses_pair(t, v, w.first) && uses_pair(t, v, w.second) && uses_pair(t, v, w.third)
}

/// The weights of a generator's stage go into `t`.
pub open spec fn uses_stage(t: Term, v: Seq<Term>, w: GeneratorStage) -> bool {
    &&& uses_conv(t, v, w.up.conv)
    &&& made_from(t, v[w.noise_conv.weight as int])
    &&& made_from(t, v[w.noise_conv.bias as int])
    &&& uses_res(t, v, w.noise_res)
    &&& uses_res(t, v, w.first)
    &&& uses_res(t, v, w.second)
    &&& uses_res(t, v, w.third)
}

proof fn lemma_half_origins(
    norm: AdaIn,
    alpha: usize,
    conv: Conv,
    v: Seq<Term>,
    x: Term,
    style: Term,
    shape: ConvShape,
    frames: u32,
)
    ensures
        ({
            let t = half_output(norm, alpha, conv, v, x, style, shape, frames);
            &&& made_from(t, x)
            &&& made_from(t, style)
            &&& uses_style_map(t, v, norm)
            &&& uses_conv(t, v, conv)
            &&& made_from(t, v[alpha as int])
        }),
{
    broadcast use group_origins;

    let a = styled(norm, v, x, style, shape.input, frames);
    lemma_styled_origins(norm, v, x, style, shape.input, frames);
    let b = snake_f16(a, v[alpha as int], shape.input, frames);
    lemma_conv_origins(b, v[conv.weight as int], v[conv.bias as int], shape, frames, frames);
}

proof fn lemma_pair_origins(
    w: Stage,
    v: Seq<Term>,
    x: Term,
    style: Term,
    channels: u32,
    kernel: u32,
    dilation: u32,
    frames: u32,
)
    ensures
        ({
            let t = generator_res::stage_output(w, v, x, style, channels, kernel, dilation, frames);
            made_from(t, x) && made_from(t, style) && uses_pair(t, v, w)
        }),
{
    broadcast use group_origins;

    reveal(generator_res::stage_output);
    let shape = dilated(channels, kernel, dilation);
    let a = half_output(w.norm1, w.alpha1, w.conv1, v, x, style, shape, frames);
    lemma_half_origins(w.norm1, w.alpha1, w.conv1, v, x, style, shape, frames);
    let plain = dilated(channels, kernel, 1);
    lemma_half_origins(w.norm2, w.alpha2, w.conv2, v, a, style, plain, frames);
}

proof fn lemma_res_origins(
    w: KokoroGeneratorResBlock,
    v: Seq<Term>,
    x: Term,
    style: Term,
    frames: u32,
)
    ensures
        made_from(res_output(w, v, x, style, frames), x),
        made_from(res_output(w, v, x, style, frames), style),
        uses_res(res_output(w, v, x, style, frames), v, w),
{
    let (c, k) = (w.channels, w.kernel);
    let a = generator_res::stage_output(w.first, v, x, style, c, k, 1, frames);
    let b = generator_res::stage_output(w.second, v, a, style, c, k, 3, frames);
    lemma_pair_origins(w.first, v, x, style, c, k, 1, frames);
    lemma_pair_origins(w.second, v, a, style, c, k, 3, frames);
    lemma_pair_origins(w.third, v, b, style, c, k, 5, frames);
}

proof fn lemma_phases_origins(w: ConvTranspose, v: Seq<Term>, x: Term, frames: u32, n: nat)
    requires
        n > 0,
    ensures
        made_from(phases_output(w, v, x, frames, n), x),
        uses_conv(phases_output(w, v, x, frames, n), v, w.conv),
{
    broadcast use group_origins;

}

/// A stage of the generator is made from the frames before it, from the
/// excitation, from the style and from all of its weights.
pub proof fn law_stages_use_the_excitation(
    w: GeneratorStage,
    v: Seq<Term>,
    hidden: Term,
    source: Term,
    style: Term,
    frames: u32,
    in_frames: u32,
)
    requires
        w.up.stride > 0,
    ensures
        ({
            let t = stage_output(w, v, hidden, source, style, frames, in_frames);
            &&& made_from(t, hidden)
            &&& made_from(t, source)
            &&& made_from(t, style)
            &&& uses_stage(t, v, w)
        }),
{
    broadcast use group_origins;

    reveal(stage_output);
    reveal(upsampled);
    let out = stage_frames(w, frames as int) as u32;
    let a = leaky_relu_f16(hidden, (w.up.input * frames) as u32, Scalar::Single(SLOPE_0_1));
    let up = upsampled(w.up, v, a, frames);
    lemma_phases_origins(w.up, v, a, frames, w.up.stride as nat);
    let down = unfolded_conv(
        source,
        v[w.noise_conv.weight as int],
        v[w.noise_conv.bias as int],
        w.noise_shape,
        in_frames,
        out,
    );
    lemma_unfolded_origins(
        source,
        v[w.noise_conv.weight as int],
        v[w.noise_conv.bias as int],
        w.noise_shape,
        in_frames,
        out,
    );
    lemma_res_origins(w.noise_res, v, down, style, out);
    let x = fused(w, v, hidden, source, style, frames, in_frames);
    assert(made_from(x, up));
    assert(made_from(x, res_output(w.noise_res, v, down, style, out)));
    lemma_res_origins(w.first, v, x, style, out);
    lemma_res_origins(w.second, v, x, style, out);
    lemma_res_origins(w.third, v, x, style, out);
}

proof fn lemma_unfolded_origins(
    x: Term,
    weight: Term,
    bias: Term,
    shape: ConvShape,
    frames: u32,
    out: u32,
)
    ensures
        made_from(unfolded_conv(x, weight, bias, shape, frames, out), x),
        made_from(unfolded_conv(x, weight, bias, shape, frames, out), weight),
        made_from(unfolded_conv(x, weight, bias, shape, frames, out), bias),
{
    broadcast use group_origins;

}

/// A spectrum is made from the decoded frames, from the excitation, from the
/// style and from the weights of both stages.
pub proof fn law_spectra_use_the_excitation(
    w: KokoroGenerator,
    v: Seq<Term>,
    latent: Term,
    source: Term,
    style: Term,
    frames: u32,
)
    requires
        w.shaped(),
    ensures
        ({
            let t = spectrum(w, v, latent, source, style, frames);
            &&& made_from(t, latent)
            &&& made_from(t, source)
            &&& made_from(t, style)
            &&& uses_stage(t, v, w.coarse)
            &&& uses_stage(t, v, w.fine)
            &&& uses_conv(t, v, w.conv_post)
        }),
{
    broadcast use group_origins;

    let fine = (10 * frames) as u32;
    let full = (60 * frames + 1) as u32;
    let x = transpose_f16(latent, frames, 512);
    let a = stage_output(w.coarse, v, x, source, style, frames, full);
    law_stages_use_the_excitation(w.coarse, v, x, source, style, frames, full);
    let b = stage_output(w.fine, v, a, source, style, fine, full);
    law_stages_use_the_excitation(w.fine, v, a, source, style, fine, full);
    let c = leaky_relu_f16(b, (128 * full) as u32, Scalar::Single(SLOPE_0_01));
    lemma_unfolded_origins(
        c,
        v[w.conv_post.weight as int],
        v[w.conv_post.bias as int],
        post_shape(),
        full,
        full,
    );
}

/// No pair of convolutions of a generator's residual block adds anything.
pub open spec fn idle_res(m: Machine, v: Seq<Term>, w: KokoroGeneratorResBlock) -> bool {
    &&& silent_conv(m, v, w.first.conv2)
    &&& silent_conv(m, v, w.second.conv2)
    &&& silent_conv(m, v, w.third.conv2)
}

proof fn lemma_idle_pair(
    m: Machine,
    w: Stage,
    v: Seq<Term>,
    x: Term,
    style: Term,
    channels: u32,
    kernel: u32,
    dilation: u32,
    frames: u32,
)
    requires
        neutral(m),
        silent_conv(m, v, w.conv2),
    ensures
        alike(
            m,
            generator_res::stage_output(w, v, x, style, channels, kernel, dilation, frames),
            x,
        ),
{
    broadcast use group_numbers;

    reveal(generator_res::stage_output);
    let shape = dilated(channels, kernel, dilation);
    let a = half_output(w.norm1, w.alpha1, w.conv1, v, x, style, shape, frames);
    let b = half_output(
        w.norm2,
        w.alpha2,
        w.conv2,
        v,
        a,
        style,
        dilated(channels, kernel, 1),
        frames,
    );
    assert(blank(m, b));
    let t = add_f16(x, b, (channels * frames) as u32);
    assert(t->args.len() == 2);
    assert forall|j: int| #[trigger] numbers(m, t)(j) == numbers(m, x)(j) by {
        assert(numbers(m, t)(j) == (m.add)(numbers(m, x)(j), numbers(m, b)(j)));
    }
}

/// A generator's residual block whose convolutions add nothing leaves its input
/// as it is.
pub proof fn law_idle_residuals_keep_their_input(
    m: Machine,
    w: KokoroGeneratorResBlock,
    v: Seq<Term>,
    x: Term,
    style: Term,
    frames: u32,
)
    requires
        neutral(m),
        idle_res(m, v, w),
    ensures
        alike(m, res_output(w, v, x, style, frames), x),
{
    let (c, k) = (w.channels, w.kernel);
    let a = generator_res::stage_output(w.first, v, x, style, c, k, 1, frames);
    let b = generator_res::stage_output(w.second, v, a, style, c, k, 3, frames);
    lemma_idle_pair(m, w.first, v, x, style, c, k, 1, frames);
    lemma_idle_pair(m, w.second, v, a, style, c, k, 3, frames);
    lemma_idle_pair(m, w.third, v, b, style, c, k, 5, frames);
}

/// A third of three times a number is that number.
pub open spec fn thirds(m: Machine) -> bool {
    forall|a: int|
        (m.each)(
            Kernel::ScaleF16,
            #[trigger] (m.add)((m.add)(a, a), a),
            seq![Scalar::Single(ONE_THIRD)],
        ) == a
}

/// Where its residual blocks add nothing, a stage is the upsampled frames plus
/// the downsampled excitation: the mean of three equal branches is any of them.
pub proof fn law_idle_stages_add_the_excitation(
    m: Machine,
    w: GeneratorStage,
    v: Seq<Term>,
    hidden: Term,
    source: Term,
    style: Term,
    frames: u32,
    in_frames: u32,
    j: int,
)
    requires
        neutral(m),
        thirds(m),
        !w.pads,
        idle_res(m, v, w.noise_res),
        idle_res(m, v, w.first),
        idle_res(m, v, w.second),
        idle_res(m, v, w.third),
    ensures
        numbers(m, stage_output(w, v, hidden, source, style, frames, in_frames))(j) == (m.add)(
            numbers(
                m,
                upsampled(
                    w.up,
                    v,
                    leaky_relu_f16(hidden, (w.up.input * frames) as u32, Scalar::Single(SLOPE_0_1)),
                    frames,
                ),
            )(j),
            numbers(
                m,
                unfolded_conv(
                    source,
                    v[w.noise_conv.weight as int],
                    v[w.noise_conv.bias as int],
                    w.noise_shape,
                    in_frames,
                    stage_frames(w, frames as int) as u32,
                ),
            )(j),
        ),
{
    broadcast use group_numbers;

    reveal(stage_output);
    let out = stage_frames(w, frames as int) as u32;
    let n = (w.up.output * out) as u32;
    let a = leaky_relu_f16(hidden, (w.up.input * frames) as u32, Scalar::Single(SLOPE_0_1));
    let up = upsampled(w.up, v, a, frames);
    let down = unfolded_conv(
        source,
        v[w.noise_conv.weight as int],
        v[w.noise_conv.bias as int],
        w.noise_shape,
        in_frames,
        out,
    );
    let side = res_output(w.noise_res, v, down, style, out);
    law_idle_residuals_keep_their_input(m, w.noise_res, v, down, style, out);
    assert(numbers(m, side)(j) == numbers(m, down)(j));
    let x = fused(w, v, hidden, source, style, frames, in_frames);
    assert(x == add_f16(up, side, n));
    assert(x->args.len() == 2);
    let b0 = res_output(w.first, v, x, style, out);
    let b1 = res_output(w.second, v, x, style, out);
    let b2 = res_output(w.third, v, x, style, out);
    law_idle_residuals_keep_their_input(m, w.first, v, x, style, out);
    law_idle_residuals_keep_their_input(m, w.second, v, x, style, out);
    law_idle_residuals_keep_their_input(m, w.third, v, x, style, out);
    assert(numbers(m, b0)(j) == numbers(m, x)(j));
    assert(numbers(m, b1)(j) == numbers(m, x)(j));
    assert(numbers(m, b2)(j) == numbers(m, x)(j));
    let s01 = add_f16(b0, b1, n);
    assert(s01->args.len() == 2);
    let s = add_f16(s01, b2, n);
    assert(s->args.len() == 2);
    let third = Scalar::Single(ONE_THIRD);
    let t = scale_f16(s, n, third);
    assert(t->args.len() == 1);
    assert(seq![Scalar::Count(n), third].skip(1) =~= seq![third]);
}

proof fn lemma_passes_alike(w: KokoroAlbert, other: KokoroAlbert, v: Seq<Term>, x: Term, tokens: u32, n: nat)
    requires
        other == (KokoroAlbert { passes: other.passes, ..w }),
    ensures
        layers_output(other, v, x, tokens, n) == layers_output(w, v, x, tokens, n),
    decreases n,
{
    reveal(layer_output);
    if n > 0 {
        lemma_passes_alike(w, other, v, x, tokens, (n - 1) as nat);
    }
}

/// Passes follow one another: an encoder with one pass more applies the layer
/// once more, to what it would have projected otherwise.
pub proof fn law_passes_follow_one_another(w: KokoroAlbert, v: Seq<Term>, ids: Seq<usize>)
    requires
        w.passes > 0,
    ensures
        exists|y: Term|
            encoded(KokoroAlbert { passes: (w.passes - 1) as usize, ..w }, v, ids) == #[trigger] apply(
                v,
                w.output_projection,
                y,
                ids.len() as u32,
                768,
                512,
            ) && encoded(w, v, ids) == apply(
                v,
                w.output_projection,
                layer_output(w, v, y, ids.len() as u32),
                ids.len() as u32,
                768,
                512,
            ),
{
    let tokens = ids.len() as u32;
    let before = KokoroAlbert { passes: (w.passes - 1) as usize, ..w };
    let e = embedded(w, v, ids);
    assert(embedded(before, v, ids) == e);
    let y = layers_output(before, v, e, tokens, before.passes as nat);
    lemma_passes_alike(w, before, v, e, tokens, before.passes as nat);
    assert(encoded(before, v, ids) == apply(v, w.output_projection, y, tokens, 768, 512));
}

proof fn lemma_norm_alike(
    m: Machine,
    x: Term,
    y: Term,
    weight: Term,
    bias: Term,
    rows: u32,
    dim: u32,
    eps: Scalar,
)
    requires
        alike(m, x, y),
    ensures
        alike(m, widened_norm(x, weight, bias, rows, dim, eps), widened_norm(y, weight, bias, rows, dim, eps)),
{
    broadcast use group_numbers;

    let n = (rows * dim) as u32;
    let (a, b) = (copy_f16_to_f32(x, n), copy_f16_to_f32(y, n));
    assert(a->args.len() == 1 && b->args.len() == 1);
    let (p, q) = (
        widened_norm(x, weight, bias, rows, dim, eps),
        widened_norm(y, weight, bias, rows, dim, eps),
    );
    assert(p->args.len() == 3 && q->args.len() == 3);
    assert forall|j: int| #[trigger] numbers(m, a)(j) == numbers(m, b)(j) by {
        assert(numbers(m, x)(j) == numbers(m, y)(j));
    }
    assert forall|j: int| #[trigger] numbers(m, p)(j) == numbers(m, q)(j) by {
        let at = j / (dim as int) * dim;
        assert(piece(numbers(m, a), at, dim as int) =~= piece(numbers(m, b), at, dim as int));
    }
}

/// Where neither attention nor the network adds anything, the encoder's layer
/// normalises the rows twice.
pub proof fn law_idle_encoder_layers_only_normalise(
    m: Machine,
    w: KokoroAlbert,
    v: Seq<Term>,
    hidden: Term,
    tokens: u32,
)
    requires
        neutral(m),
        silent(m, false, v[w.attention_output.weight as int]),
        blank(m, v[w.attention_output.bias as int]),
        silent(m, false, v[w.ffn_output.weight as int]),
        blank(m, v[w.ffn_output.bias as int]),
    ensures
        alike(
            m,
            layer_output(w, v, hidden, tokens),
            widened_norm(
                widened_norm(
                    hidden,
                    v[w.attention_norm_weight as int],
                    v[w.attention_norm_bias as int],
                    tokens,
                    768,
                    Scalar::Single(EPS_1E12),
                ),
                v[w.final_norm_weight as int],
                v[w.final_norm_bias as int],
                tokens,
                768,
                Scalar::Single(EPS_1E12),
            ),
        ),
{
    reveal(layer_output);
    let eps = Scalar::Single(EPS_1E12);
    let n = (tokens * 768) as u32;
    let (aw, ab) = (v[w.attention_norm_weight as int], v[w.attention_norm_bias as int]);
    let (fw, fb) = (v[w.final_norm_weight as int], v[w.final_norm_bias as int]);
    let a = attended(w, v, hidden, tokens);
    let out = a->args[0]->args[0];
    assert(a == apply(v, w.attention_output, out, tokens, 768, 768));
    lemma_blank_map(
        m,
        out,
        v[w.attention_output.weight as int],
        v[w.attention_output.bias as int],
        tokens,
        768,
        768,
    );
    lemma_blank_added(m, hidden, a, n);
    let x = add_f16(hidden, a, n);
    lemma_norm_alike(m, x, hidden, aw, ab, tokens, 768, eps);
    let middle = widened_norm(x, aw, ab, tokens, 768, eps);
    let wide = apply(v, w.ffn, middle, tokens, 768, 2048);
    let active = gelu_erf_f16(wide, (tokens * 2048) as u32);
    let c = apply(v, w.ffn_output, active, tokens, 2048, 768);
    lemma_blank_map(
        m,
        active,
        v[w.ffn_output.weight as int],
        v[w.ffn_output.bias as int],
        tokens,
        768,
        2048,
    );
    lemma_blank_added(m, middle, c, n);
    let y = add_f16(middle, c, n);
    let once = widened_norm(hidden, aw, ab, tokens, 768, eps);
    assert forall|j: int| #[trigger] numbers(m, y)(j) == numbers(m, once)(j) by {
        assert(numbers(m, y)(j) == numbers(m, middle)(j));
        assert(numbers(m, middle)(j) == numbers(m, once)(j));
    }
    lemma_norm_alike(m, y, once, fw, fb, tokens, 768, eps);
    assert(layer_output(w, v, hidden, tokens) == widened_norm(y, fw, fb, tokens, 768, eps));
}

/// The weights of a branch and of its projection go into `t`.
pub open spec fn uses_branch(t: Term, v: Seq<Term>, w: Branch, projection: Projection) -> bool {
    &&& uses_block(t, v, w.first)
    &&& uses_block(t, v, w.second)
    &&& uses_block(t, v, w.third)
    &&& made_from(t, v[projection.weight as int])
    &&& made_from(t, v[projection.bias as int])
}

/// Pitch and noise come from the same rows by branches of their own, and the
/// weights of one branch are nothing to the other.
pub proof fn law_pitch_and_noise_have_their_own_branches(
    w: KokoroF0Noise,
    other: KokoroF0Noise,
    plan: Plan,
    aligned: Term,
    style: Term,
    frames: int,
)
    requires
        0 < frames,
        other.shared == w.shared,
    ensures
        ({
            let (f0, noise) = pitch_and_noise(w, plan, aligned, style, frames);
            let changed = pitch_and_noise(other, plan, aligned, style, frames);
            let v = plan.values();
            &&& made_from(f0, aligned) && made_from(f0, style) && uses_lstm(f0, v, w.shared)
            &&& made_from(noise, aligned) && made_from(noise, style) && uses_lstm(noise, v, w.shared)
            &&& uses_branch(f0, v, w.f0_blocks, w.f0_projection)
            &&& uses_branch(noise, v, w.noise_blocks, w.noise_projection)
            &&& (other.f0_blocks == w.f0_blocks && other.f0_projection == w.f0_projection)
                ==> changed.0 == f0
            &&& (other.noise_blocks == w.noise_blocks && other.noise_projection
                == w.noise_projection) ==> changed.1 == noise
        }),
{
    let v = plan.values();
    let shared = lstm_output(w.shared, plan, aligned, frames);
    law_recurrence_uses_both_directions(w.shared, plan, aligned, frames);
    law_pitch_uses_every_weight(w.f0_blocks, w.f0_projection, v, shared, style, frames as u32);
    law_pitch_uses_every_weight(w.noise_blocks, w.noise_projection, v, shared, style, frames as u32);
}

/// Where its second convolution adds nothing, a block hands its shortcut on,
/// scaled.
pub proof fn law_idle_blocks_scale_their_shortcut(
    m: Machine,
    w: KokoroAdaInResBlock,
    v: Seq<Term>,
    rows: Term,
    style: Term,
    frames: u32,
)
    requires
        neutral(m),
        silent_conv(m, v, w.conv2),
    ensures
        ({
            let out = frames_out(w, frames as int) as u32;
            let n = (w.output * out) as u32;
            let channels = transpose_f16(rows, frames, w.input);
            alike(
                m,
                block_rows(w, v, rows, style, frames),
                transpose_f16(
                    scale_f16(shortcut(w, v, channels, frames), n, Scalar::Single(FRAC_1_SQRT_2)),
                    w.output,
                    out,
                ),
            )
        }),
{
    broadcast use group_numbers;

    reveal(residual);
    let out = frames_out(w, frames as int) as u32;
    let n = (w.output * out) as u32;
    let channels = transpose_f16(rows, frames, w.input);
    let r = residual(w, v, channels, style, frames);
    assert(blank(m, r));
    let side = shortcut(w, v, channels, frames);
    let sum = add_f16(r, side, n);
    lemma_blank_added(m, side, r, n);
    let scale = Scalar::Single(FRAC_1_SQRT_2);
    let a = scale_f16(sum, n, scale);
    let b = scale_f16(side, n, scale);
    assert(a->args.len() == 1 && b->args.len() == 1);
    let ta = transpose_f16(a, w.output, out);
    let tb = transpose_f16(b, w.output, out);
    assert(ta->args.len() == 1 && tb->args.len() == 1);
    assert forall|j: int| #[trigger] numbers(m, ta)(j) == numbers(m, tb)(j) by {
        let i = j % (w.output as int) * out + j / (w.output as int);
        assert(numbers(m, ta)(j) == numbers(m, a)(i));
        assert(numbers(m, tb)(j) == numbers(m, b)(i));
        assert(numbers(m, sum)(i) == numbers(m, side)(i));
    }
}

} // verus!
