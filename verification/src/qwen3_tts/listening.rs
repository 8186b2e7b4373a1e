//! What the encoders promise: the signal and every weight have their share in
//! what is heard, residual blocks that add nothing pass the signal on, and
//! channels lie where they belong.
use vstd::prelude::*;
use crate::arith::ceil_div;
use crate::device::{Plan, Scalar, Term};
use crate::device::idle::{lemma_blank_added, lemma_blank_map, lemma_blank_turned, lemma_quiet, quiet};
use crate::device::kernels::Kernel;
use crate::device::meaning::{
    Machine, alike, blank, copied, group_numbers, group_origins, made_from, neutral, numbers, silent,
};
use crate::device::value::{
    add_bias_f16_inplace, add_f16, append_channel_block, append_context, channel_mean, channel_scale,
    channel_stats_mean, channel_stats_stddev, copy_buffer, copy_f16_to_f32, copy_f32_to_f16, copy_from,
    matmul_f16, tanh, transpose_f16, unfold_causal_stride, weighted_channel_stats_mean,
    weighted_channel_stats_stddev,
};
use crate::qwen3_tts::codec_encoder::{
    CodecEncoder, Conv1d, EncoderStage, ResidualBlock, Signal, bias_value, conv_step, convolved,
    elu_step, encoder_layers, frames_after, residual_step, stage_step,
};
use crate::qwen3_tts::rebuilding::{law_encoder_layers_use_every_weight, uses_encoder_layer};
use crate::qwen3_tts::speaker_encoder;
use crate::qwen3_tts::speaker_encoder::{
    Aggregate, Groups, SeRes2Block, SpeakerEncoder, block_step, conv_relu_step, gate_step, group_output,
    groups,
};

verus! {

/// Where there is a signal, `part` has its share in it.
pub open spec fn carries(s: Signal, part: Term) -> bool {
    match s {
        Signal::Of { value, .. } => made_from(value, part),
        Signal::Failed(_) => true,
    }
}

/// Where there is a signal, the other has its share in it.
pub open spec fn carries_on(s: Signal, before: Signal) -> bool {
    match (s, before) {
        (Signal::Of { value, .. }, Signal::Of { value: x, .. }) => made_from(value, x),
        (Signal::Of { .. }, Signal::Failed(_)) => false,
        (Signal::Failed(_), _) => true,
    }
}

/// The weight and the bias of a convolution have their share in a signal.
pub open spec fn uses_conv(s: Signal, plan: Plan, conv: Conv1d) -> bool {
    &&& carries(s, plan.values()[conv.weight as int])
    &&& conv.bias matches Some(b) ==> carries(s, plan.values()[b as int])
}

/// All convolutions of a stage have their share in a signal.
pub open spec fn uses_stage(s: Signal, plan: Plan, stage: EncoderStage) -> bool {
    &&& uses_conv(s, plan, stage.residual.first)
    &&& uses_conv(s, plan, stage.residual.second)
    &&& uses_conv(s, plan, stage.downsample)
}

proof fn lemma_conv_origins(s: Signal, len: int, conv: Conv1d, plan: Plan)
    ensures
        carries_on(conv_step(s, len, conv, plan), s),
        uses_conv(conv_step(s, len, conv, plan), plan, conv),
{
    broadcast use group_origins;

    reveal(convolved);
}

proof fn lemma_elu_origins(s: Signal)
    ensures
        carries_on(elu_step(s), s),
{
    broadcast use group_origins;

}

proof fn lemma_residual_origins(s: Signal, len: int, block: ResidualBlock, plan: Plan)
    ensures
        ({
            let t = residual_step(s, len, block, plan);
            carries_on(t, s) && uses_conv(t, plan, block.first) && uses_conv(t, plan, block.second)
        }),
{
    broadcast use group_origins;

    if let Signal::Of { value, size } = s {
        let copied = Signal::Of { value: copy_buffer(value, size as usize), size };
        let a = elu_step(copied);
        lemma_elu_origins(copied);
        let b = conv_step(a, len, block.first, plan);
        lemma_conv_origins(a, len, block.first, plan);
        let c = elu_step(b);
        lemma_elu_origins(b);
        lemma_conv_origins(c, len, block.second, plan);
    }
}

proof fn lemma_stage_origins(s: Signal, len: int, stage: EncoderStage, plan: Plan)
    ensures
        carries_on(stage_step(s, len, stage, plan), s),
        uses_stage(stage_step(s, len, stage, plan), plan, stage),
{
    let a = residual_step(s, len, stage.residual, plan);
    lemma_residual_origins(s, len, stage.residual, plan);
    let b = elu_step(a);
    lemma_elu_origins(a);
    lemma_conv_origins(b, len, stage.downsample, plan);
}

/// What comes of a signal after `n` stages is made from it and from all
/// convolutions on the way.
pub proof fn law_stages_use_every_convolution(w: CodecEncoder, plan: Plan, x: Term, samples: int, n: nat)
    requires
        n <= w.stages@.len(),
    ensures
        carries(w.staged(plan, x, samples, n), x),
        uses_conv(w.staged(plan, x, samples, n), plan, w.initial),
        forall|i: int|
            0 <= i < n ==> uses_stage(
                w.staged(plan, x, samples, n),
                plan,
                #[trigger] w.stages@[i],
            ),
    decreases n,
{
    if n == 0 {
        lemma_conv_origins(Signal::Of { value: x, size: samples }, samples, w.initial, plan);
    } else {
        let j = (n - 1) as nat;
        law_stages_use_every_convolution(w, plan, x, samples, j);
        lemma_stage_origins(
            w.staged(plan, x, samples, j),
            frames_after(w.stages@, samples, j),
            w.stages@[n - 1],
            plan,
        );
    }
}

/// Embeddings are made from the signal, from all stages, from all layers of the
/// transformer and from the convolutions before and after it.
pub proof fn law_embeddings_use_every_weight(w: CodecEncoder, plan: Plan, x: Term, samples: int)
    ensures
        ({
            let s = w.embeddings(plan, x, samples);
            &&& carries(s, x)
            &&& uses_conv(s, plan, w.initial)
            &&& uses_conv(s, plan, w.final_conv)
            &&& uses_conv(s, plan, w.downsample)
            &&& forall|i: int|
                0 <= i < w.stages@.len() ==> uses_stage(s, plan, #[trigger] w.stages@[i])
            &&& s matches Signal::Of { value, .. } ==> forall|i: int|
                0 <= i < w.transformer@.len() ==> uses_encoder_layer(
                    value,
                    plan.values(),
                    #[trigger] w.transformer@[i],
                )
        }),
{
    broadcast use group_origins;

    let len = w.length(samples);
    let n = w.stages@.len();
    let a = w.staged(plan, x, samples, n);
    law_stages_use_every_convolution(w, plan, x, samples, n);
    let b = elu_step(a);
    lemma_elu_origins(a);
    let c = conv_step(b, len, w.final_conv, plan);
    lemma_conv_origins(b, len, w.final_conv, plan);
    if let Signal::Of { value, .. } = c {
        let short = len as u32;
        let d = copy_f16_to_f32(transpose_f16(value, 512, short), (512 * short) as u32);
        assert(made_from(d, value));
        let layers = w.transformer@.len();
        law_encoder_layers_use_every_weight(w.transformer@, plan, d, len as u32, layers);
        let e = encoder_layers(w.transformer@, plan, d, len as u32, layers);
        let f = transpose_f16(copy_f32_to_f16(e, (512 * len) as u32), len as u32, 512);
        assert(made_from(f, e));
        let g = Signal::Of { value: f, size: 512 * len };
        lemma_conv_origins(g, len, w.downsample, plan);
        let s = w.embeddings(plan, x, samples);
        if let Signal::Of { value: z, .. } = conv_step(g, len, w.downsample, plan) {
            let frames = ceil_div(len, 2);
            assert(made_from(transpose_f16(z, 512, frames as u32), z));
            assert(w.transformed(plan, value, len as u32) == e);
            assert(s == (Signal::Of {
                value: transpose_f16(z, 512, frames as u32),
                size: 512 * frames,
            }));
        }
        assert(carries(s, f));
        assert(carries(s, e));
        assert(carries(s, d));
        assert(carries(s, value));
        assert forall|i: int| 0 <= i < n implies uses_stage(s, plan, #[trigger] w.stages@[i]) by {
            assert(uses_stage(a, plan, w.stages@[i]));
        }
        if let Signal::Of { value: y, .. } = s {
            assert forall|i: int| 0 <= i < layers implies uses_encoder_layer(
                y,
                plan.values(),
                #[trigger] w.transformer@[i],
            ) by {
                assert(uses_encoder_layer(e, plan.values(), w.transformer@[i]));
            }
        }
    }
}

/// A convolution of the encoder gives nothing.
pub open spec fn silent_conv(m: Machine, plan: Plan, conv: Conv1d) -> bool {
    silent(m, false, plan.values()[conv.weight as int]) && blank(m, bias_value(conv, plan))
}

/// A residual block whose second convolution adds nothing passes the signal on.
pub proof fn law_idle_blocks_pass_the_signal_on(
    m: Machine,
    value: Term,
    size: int,
    len: int,
    block: ResidualBlock,
    plan: Plan,
)
    requires
        neutral(m),
        silent_conv(m, plan, block.second),
    ensures
        residual_step(Signal::Of { value, size }, len, block, plan) matches Signal::Of {
            value: after,
            size: n,
        } ==> alike(m, after, value) && n == size,
{
    reveal(convolved);
    let s = Signal::Of { value, size };
    if let Signal::Of { value: after, .. } = residual_step(s, len, block, plan) {
        let copied = Signal::Of { value: copy_buffer(value, size as usize), size };
        let b = elu_step(conv_step(elu_step(copied), len, block.first, plan));
        if let Signal::Of { value: y, .. } = b {
            let conv = block.second;
            let out_len = ceil_div(len, conv.stride as int) as u32;
            let width = (conv.in_channels * conv.kernel_size) as u32;
            let out = conv.out_channels as u32;
            let u = unfold_causal_stride(
                y,
                conv.in_channels as u32,
                len as u32,
                out_len,
                conv.kernel_size as u32,
                conv.stride as u32,
                conv.dilation as u32,
            );
            let weight = plan.values()[conv.weight as int];
            let bias = bias_value(conv, plan);
            lemma_blank_map(m, u, weight, bias, out_len, out, width);
            let p = add_bias_f16_inplace(matmul_f16(u, weight, out_len, out, width), bias, out_len, out);
            lemma_blank_turned(m, p, out_len, out);
            lemma_blank_added(m, value, convolved(y, len, conv, plan), size as u32);
        }
    }
}

/// The weight and the bias of a speaker's convolution have their share in a
/// signal.
pub open spec fn hears(s: Signal, plan: Plan, conv: speaker_encoder::Conv1d) -> bool {
    carries(s, plan.values()[conv.weight as int]) && carries(s, plan.values()[conv.bias as int])
}

/// All convolutions of a block have their share in a signal.
pub open spec fn hears_block(s: Signal, plan: Plan, block: SeRes2Block) -> bool {
    &&& hears(s, plan, block.tdnn1)
    &&& hears(s, plan, block.tdnn2)
    &&& hears(s, plan, block.se1)
    &&& hears(s, plan, block.se2)
    &&& forall|i: int| 0 <= i < 7 ==> hears(s, plan, #[trigger] block.res2@[i])
}

proof fn lemma_heard(s: Signal, frames: int, conv: speaker_encoder::Conv1d, plan: Plan)
    ensures
        carries_on(speaker_encoder::conv_step(s, frames, conv, plan), s),
        hears(speaker_encoder::conv_step(s, frames, conv, plan), plan, conv),
        carries_on(conv_relu_step(s, frames, conv, plan), s),
        hears(conv_relu_step(s, frames, conv, plan), plan, conv),
{
    broadcast use group_origins;

    reveal(speaker_encoder::convolved);
    let t = speaker_encoder::conv_step(s, frames, conv, plan);
    assert(carries_on(t, s) && hears(t, plan, conv));
}

/// A group is made from the channels and from its convolution; from the third
/// group on, also from the group before it.
pub proof fn law_groups_build_on_one_another(
    hidden: Term,
    previous: Term,
    frames: int,
    res2: Seq<speaker_encoder::Conv1d>,
    plan: Plan,
    p: int,
)
    requires
        0 <= p,
    ensures
        carries(group_output(hidden, previous, frames, res2, plan, p), hidden),
        p > 0 ==> hears(group_output(hidden, previous, frames, res2, plan, p), plan, res2[p - 1]),
        p > 1 ==> carries(group_output(hidden, previous, frames, res2, plan, p), previous),
{
    broadcast use group_origins;

    let len = 64 * frames;
    let current = copy_from(hidden, len as usize, (p * len) as usize);
    let sum = add_f16(current, previous, len as u32);
    if p > 0 {
        let input = if p > 1 {
            sum
        } else {
            current
        };
        lemma_heard(Signal::Of { value: input, size: len }, frames, res2[p - 1], plan);
    }
}

proof fn lemma_groups_origins(
    hidden: Term,
    frames: int,
    res2: Seq<speaker_encoder::Conv1d>,
    plan: Plan,
    n: nat,
)
    requires
        n > 0,
    ensures
        groups(hidden, frames, res2, plan, n) matches Groups::Of { merged, .. } ==> {
            let s = Signal::Of { value: merged, size: 0 };
            &&& made_from(merged, hidden)
            &&& forall|i: int| 0 <= i < n - 1 ==> hears(s, plan, #[trigger] res2[i])
        },
    decreases n,
{
    broadcast use group_origins;

    reveal_with_fuel(groups, 2);
    let j = (n - 1) as nat;
    if j > 0 {
        lemma_groups_origins(hidden, frames, res2, plan, j);
    }
    if let Groups::Of { merged, previous } = groups(hidden, frames, res2, plan, j) {
        law_groups_build_on_one_another(hidden, previous, frames, res2, plan, n - 1);
        if let Signal::Of { value, .. } = group_output(hidden, previous, frames, res2, plan, n - 1) {
            let t = append_channel_block(value, merged, 64, 512, (64 * (n - 1)) as u32, frames as u32);
            assert(made_from(t, value) && made_from(t, merged));
        }
    }
}

/// What comes of a block is made from the signal and from all of its
/// convolutions.
pub proof fn law_blocks_use_every_convolution(s: Signal, frames: int, block: SeRes2Block, plan: Plan)
    ensures
        carries_on(block_step(s, frames, block, plan), s),
        hears_block(block_step(s, frames, block, plan), plan, block),
{
    broadcast use group_origins;

    let a = conv_relu_step(s, frames, block.tdnn1, plan);
    lemma_heard(s, frames, block.tdnn1, plan);
    if let Signal::Of { value: hidden, .. } = a {
        lemma_groups_origins(hidden, frames, block.res2@, plan, 8);
        if let Groups::Of { merged, .. } = groups(hidden, frames, block.res2@, plan, 8) {
            let b = Signal::Of { value: merged, size: 512 * frames };
            let c = conv_relu_step(b, frames, block.tdnn2, plan);
            lemma_heard(b, frames, block.tdnn2, plan);
            if let Signal::Of { value: after, .. } = c {
                let mean = channel_mean(after, 512, frames as u32);
                let d = Signal::Of { value: mean, size: 512 };
                let e = conv_relu_step(d, 1, block.se1, plan);
                lemma_heard(d, 1, block.se1, plan);
                lemma_heard(e, 1, block.se2, plan);
                let f = speaker_encoder::conv_step(e, 1, block.se2, plan);
                let g = gate_step(after, frames, block, plan);
                assert(carries_on(g, f));
                if let Signal::Of { value: gate, .. } = g {
                    let scaled = channel_scale(after, gate, 512, frames as u32);
                    assert(made_from(scaled, after) && made_from(scaled, gate));
                    let t = block_step(s, frames, block, plan);
                    assert(carries(t, scaled));
                    assert(carries(t, after) && carries(t, gate) && carries(t, merged));
                    assert(carries(t, hidden));
                    assert forall|i: int| 0 <= i < 7 implies hears(
                        t,
                        plan,
                        #[trigger] block.res2@[i],
                    ) by {
                        assert(hears(Signal::Of { value: merged, size: 0 }, plan, block.res2@[i]));
                    }
                }
            }
        }
    }
}

/// A block whose gated branch comes to nothing passes the signal on.
pub proof fn law_idle_speaker_blocks_pass_the_signal_on(
    m: Machine,
    x: Term,
    size: int,
    frames: int,
    block: SeRes2Block,
    plan: Plan,
)
    requires
        neutral(m),
        forall|h: Term, g: Term| blank(m, #[trigger] channel_scale(h, g, 512, frames as u32)),
    ensures
        block_step(Signal::Of { value: x, size }, frames, block, plan) matches Signal::Of {
            value: after,
            ..
        } ==> alike(m, after, x),
{
    let s = Signal::Of { value: x, size };
    if let Signal::Of { value: after, .. } = block_step(s, frames, block, plan) {
        let scaled = after->args[0];
        assert(after == add_f16(scaled, x, (512 * frames) as u32));
        assert(scaled == channel_scale(scaled->args[0], scaled->args[1], 512, frames as u32));
        lemma_blank_added(m, x, scaled, (512 * frames) as u32);
    }
}

/// What comes of `n` blocks is made from the signal and from their convolutions.
proof fn lemma_aggregate_origins(w: SpeakerEncoder, plan: Plan, x: Term, frames: int, n: nat)
    requires
        n <= w.blocks@.len(),
    ensures
        w.aggregate(plan, x, frames, n) matches Aggregate::Of { hidden, aggregated } ==> {
            let all = Signal::Of { value: aggregated, size: 0 };
            &&& hidden is Of
            &&& carries(hidden, x)
            &&& hears(hidden, plan, w.initial)
            &&& n > 0 ==> carries(all, x) && hears(all, plan, w.initial)
            &&& forall|i: int| 0 <= i < n ==> hears_block(all, plan, #[trigger] w.blocks@[i])
        },
    decreases n,
{
    broadcast use group_origins;

    if n == 0 {
        lemma_heard(Signal::Of { value: x, size: 128 * frames }, frames, w.initial, plan);
    } else {
        let j = (n - 1) as nat;
        lemma_aggregate_origins(w, plan, x, frames, j);
        if let Aggregate::Of { hidden, aggregated } = w.aggregate(plan, x, frames, j) {
            let block = w.blocks@[n - 1];
            law_blocks_use_every_convolution(hidden, frames, block, plan);
            if let Signal::Of { value, .. } = block_step(hidden, frames, block, plan) {
                let t = append_channel_block(
                    value,
                    aggregated,
                    512,
                    1536,
                    (512 * (n - 1)) as u32,
                    frames as u32,
                );
                assert(made_from(t, value) && made_from(t, aggregated));
                let all = Signal::Of { value: t, size: 0 };
                assert(hears_block(all, plan, block));
                assert forall|i: int| 0 <= i < n implies hears_block(
                    all,
                    plan,
                    #[trigger] w.blocks@[i],
                ) by {
                    if i < j {
                        assert(hears_block(
                            Signal::Of { value: aggregated, size: 0 },
                            plan,
                            w.blocks@[i],
                        ));
                    }
                }
            }
        }
    }
}

/// A speaker's embedding is made from the spectrogram and from every
/// convolution of the encoder.
pub proof fn law_speakers_use_every_convolution(w: SpeakerEncoder, plan: Plan, x: Term, frames: int)
    requires
        w.blocks@.len() == 3,
    ensures
        ({
            let s = w.embedding(plan, x, frames);
            &&& carries(s, x)
            &&& hears(s, plan, w.initial)
            &&& hears(s, plan, w.mfa)
            &&& hears(s, plan, w.asp_tdnn)
            &&& hears(s, plan, w.asp_conv)
            &&& hears(s, plan, w.fc)
            &&& forall|i: int| 0 <= i < 3 ==> hears_block(s, plan, #[trigger] w.blocks@[i])
        }),
{
    broadcast use group_origins;

    lemma_aggregate_origins(w, plan, x, frames, 3);
    if let Aggregate::Of { aggregated, .. } = w.aggregate(plan, x, frames, 3) {
        let a = Signal::Of { value: aggregated, size: 1536 * frames };
        let b = conv_relu_step(a, frames, w.mfa, plan);
        lemma_heard(a, frames, w.mfa, plan);
        if let Signal::Of { value: hidden, .. } = b {
            let context = append_context(
                hidden,
                channel_stats_mean(hidden, 1536, frames as u32),
                channel_stats_stddev(hidden, 1536, frames as u32),
                1536,
                frames as u32,
            );
            let c = Signal::Of { value: context, size: 4608 * frames };
            let d = conv_relu_step(c, frames, w.asp_tdnn, plan);
            lemma_heard(c, frames, w.asp_tdnn, plan);
            if let Signal::Of { value, size } = d {
                let e = Signal::Of { value: tanh(value, size as u32), size };
                lemma_heard(e, frames, w.asp_conv, plan);
                let f = w.attention(plan, hidden, frames);
                assert(carries(f, value));
                assert(hears(f, plan, w.asp_conv) && hears(f, plan, w.asp_tdnn));
                if let Signal::Of { value: attention, .. } = f {
                    let pooled = w.pooled(hidden, attention, frames as u32);
                    assert(made_from(pooled, hidden) && made_from(pooled, attention));
                    let g = Signal::Of { value: pooled, size: 3072 };
                    lemma_heard(g, 1, w.fc, plan);
                    let s = w.embedding(plan, x, frames);
                    assert(carries(s, pooled));
                    assert(carries(s, hidden) && carries(s, attention) && carries(s, aggregated));
                    assert forall|i: int| 0 <= i < 3 implies hears_block(
                        s,
                        plan,
                        #[trigger] w.blocks@[i],
                    ) by {
                        assert(hears_block(
                            Signal::Of { value: aggregated, size: 0 },
                            plan,
                            w.blocks@[i],
                        ));
                    }
                }
            }
        }
    }
}

/// What is pooled: first the means of all channels, then their deviations.
pub proof fn law_pooled_means_come_before_deviations(
    m: Machine,
    w: SpeakerEncoder,
    hidden: Term,
    attention: Term,
    frames: u32,
    j: int,
)
    requires
        0 <= j < 1536,
    ensures
        ({
            let t = numbers(m, w.pooled(hidden, attention, frames));
            &&& t(j) == numbers(m, weighted_channel_stats_mean(hidden, attention, 1536, frames))(j)
            &&& t(1536 + j) == numbers(
                m,
                weighted_channel_stats_stddev(hidden, attention, 1536, frames),
            )(j)
        }),
{
    broadcast use group_numbers;

    let mean = weighted_channel_stats_mean(hidden, attention, 1536, frames);
    let deviation = weighted_channel_stats_stddev(hidden, attention, 1536, frames);
    let (wide, none, one) = (Scalar::Count(1536), Scalar::Count(0), Scalar::Count(1));
    assert(wide.count() * one.count() == 1536 && none.count() * one.count() == 0) by (nonlinear_arith)
        requires
            wide.count() == 1536,
            one.count() == 1,
            none.count() == 0,
    ;
    let a = append_channel_block(mean, Term::Zeros(3072), 1536, 3072, 0, 1);
    assert(a->args.len() == 2);
    assert(numbers(m, a) == copied(numbers(m, mean), numbers(m, Term::Zeros(3072)), 1536, 0));
    let t = append_channel_block(deviation, a, 1536, 3072, 1536, 1);
    assert(t->args.len() == 2);
    assert(numbers(m, t) == copied(numbers(m, deviation), numbers(m, a), 1536, 1536));
}

/// Groups lie in their own channels: after `n` groups, the channels of group `p`
/// are what came of it.
pub proof fn law_groups_keep_their_channels(
    m: Machine,
    hidden: Term,
    frames: int,
    res2: Seq<speaker_encoder::Conv1d>,
    plan: Plan,
    n: nat,
    p: int,
    e: int,
)
    requires
        0 < frames,
        0 <= p < n <= 8,
        512 * frames <= u32::MAX,
        0 <= e < 64 * frames,
    ensures
        groups(hidden, frames, res2, plan, n) matches Groups::Of { merged, .. } ==> (groups(
            hidden,
            frames,
            res2,
            plan,
            p as nat,
        ) matches Groups::Of { previous, .. } && (group_output(
            hidden,
            previous,
            frames,
            res2,
            plan,
            p,
        ) matches Signal::Of { value, .. } && numbers(m, merged)(p * (64 * frames) + e) == numbers(
            m,
            value,
        )(e))),
    decreases n,
{
    broadcast use group_numbers;

    reveal_with_fuel(groups, 2);
    let j = (n - 1) as nat;
    if p < j {
        law_groups_keep_their_channels(m, hidden, frames, res2, plan, j, p, e);
    }
    if let Groups::Of { merged: before, previous } = groups(hidden, frames, res2, plan, j) {
        if let Signal::Of { value, .. } = group_output(hidden, previous, frames, res2, plan, n - 1) {
            let t = append_channel_block(value, before, 64, 512, (64 * (n - 1)) as u32, frames as u32);
            assert(t->args.len() == 2);
            let at = (64 * (n - 1)) * frames;
            assert(at == (n - 1) * (64 * frames)) by (nonlinear_arith)
                requires
                    at == (64 * (n - 1)) * frames,
            ;
            let i = p * (64 * frames) + e;
            assert(p < n - 1 ==> i < at) by (nonlinear_arith)
                requires
                    i == p * (64 * frames) + e,
                    at == (n - 1) * (64 * frames),
                    0 <= e < 64 * frames,
                    0 < frames,
            ;
        }
    }
}

/// What a convolution of the speaker encoder gives has passed its activation:
/// where that gives nothing, neither does it.
pub proof fn law_speaker_convolutions_are_activated(
    m: Machine,
    s: Signal,
    frames: int,
    conv: speaker_encoder::Conv1d,
    plan: Plan,
)
    requires
        quiet(m, Kernel::Relu),
    ensures
        conv_relu_step(s, frames, conv, plan) matches Signal::Of { value, .. } ==> blank(m, value),
{
    if let Signal::Of { value, size } = speaker_encoder::conv_step(s, frames, conv, plan) {
        lemma_quiet(m, value, size as u32);
    }
}

/// What a block adds is its channels times their gates, which have passed a
/// sigmoid: where that gives nothing, the signal is passed on as it is.
pub proof fn law_speaker_gates_are_sigmoids(
    m: Machine,
    x: Term,
    size: int,
    frames: int,
    block: SeRes2Block,
    plan: Plan,
)
    requires
        neutral(m),
        quiet(m, Kernel::Sigmoid),
        forall|h: Term, g: Term|
            blank(m, g) ==> blank(m, #[trigger] channel_scale(h, g, 512, frames as u32)),
    ensures
        block_step(Signal::Of { value: x, size }, frames, block, plan) matches Signal::Of {
            value: after,
            ..
        } ==> alike(m, after, x),
{
    let s = Signal::Of { value: x, size };
    if let Signal::Of { value: after, .. } = block_step(s, frames, block, plan) {
        let scaled = after->args[0];
        let gate = scaled->args[1];
        assert(after == add_f16(scaled, x, (512 * frames) as u32));
        assert(scaled == channel_scale(scaled->args[0], gate, 512, frames as u32));
        let hidden = scaled->args[0];
        if let Signal::Of { value: g, .. } = gate_step(hidden, frames, block, plan) {
            assert(gate == g);
            let mean = channel_mean(hidden, 512, frames as u32);
            let c = speaker_encoder::conv_step(
                conv_relu_step(Signal::Of { value: mean, size: 512 }, 1, block.se1, plan),
                1,
                block.se2,
                plan,
            );
            if let Signal::Of { value: z, size: n } = c {
                lemma_quiet(m, z, n as u32);
            }
        }
        lemma_blank_added(m, x, scaled, (512 * frames) as u32);
    }
}

} // verus!
