//! What the waveform decoder and the connectors promise: every input and every
//! weight has its share, and blocks that add nothing pass their rows on.
use vstd::prelude::*;
use crate::device::{Scalar, Term};
use crate::device::compound::linear;
use crate::device::idle::{
    lemma_blank_added, lemma_blank_map, lemma_blank_scaled, lemma_blank_through, lemma_blank_turned,
    lemma_quiet, quiet,
};
use crate::device::kernels::Kernel;
use crate::device::meaning::{
    Machine, absorbing, alike, blank, group_numbers, group_origins, made_from, neutral, numbers, silent,
    still,
};
use crate::device::value::{
    copy_bf16_to_f32, copy_from, gelu_erf_f16, mul_f16_broadcast, rms_norm, transpose_f16,
};
use crate::vibevoice::decoder::{Conv1d, DecoderBlock, DecoderStage, VibeVoiceAcousticDecoder};
use crate::vibevoice::generation::{
    VibeVoiceGenerationWeights, connected, embedded, end_logit, signed_ids, type_row,
};
use crate::vibevoice::waveform::{
    block_output, blocks_output, convolved, decoded, frames_after, mixed, refined, stage_input,
    stages_output,
};

verus! {

/// The weight and the bias of a convolution go into `t`.
pub open spec fn uses_conv(t: Term, v: Seq<Term>, c: Conv1d) -> bool {
    made_from(t, v[c.weight as int]) && made_from(t, v[c.bias as int])
}

/// All weights of a block go into `t`.
pub open spec fn uses_block(t: Term, v: Seq<Term>, w: DecoderBlock) -> bool {
    &&& made_from(t, v[w.norm as int])
    &&& uses_conv(t, v, w.mixer)
    &&& made_from(t, v[w.gamma as int])
    &&& made_from(t, v[w.ffn_norm as int])
    &&& made_from(t, v[w.ffn_up as int])
    &&& made_from(t, v[w.ffn_up_bias as int])
    &&& made_from(t, v[w.ffn_down as int])
    &&& made_from(t, v[w.ffn_down_bias as int])
    &&& made_from(t, v[w.ffn_gamma as int])
}

/// The upsampling and all blocks of a stage go into `t`.
pub open spec fn uses_stage(t: Term, v: Seq<Term>, stage: DecoderStage) -> bool {
    &&& stage.upsample matches Some(u) ==> made_from(t, v[u.weight as int]) && made_from(
        t,
        v[u.bias as int],
    )
    &&& forall|b: int|
        0 <= b < stage.blocks@.len() ==> uses_block(t, v, #[trigger] stage.blocks@[b])
}

proof fn lemma_conv_origins(c: Conv1d, v: Seq<Term>, x: Term, frames: u32)
    ensures
        made_from(convolved(c, v, x, frames), x),
        uses_conv(convolved(c, v, x, frames), v, c),
{
    broadcast use group_origins;

}

proof fn lemma_block_origins(w: DecoderBlock, v: Seq<Term>, x: Term, frames: u32, eps: Scalar)
    ensures
        made_from(block_output(w, v, x, frames, eps), x),
        uses_block(block_output(w, v, x, frames, eps), v, w),
{
    broadcast use group_origins;

    reveal(block_output);
    let mid = mixed(w, v, x, frames, eps);
    assert(made_from(mid, x) && made_from(mid, v[w.norm as int]));
    assert(uses_conv(mid, v, w.mixer) && made_from(mid, v[w.gamma as int]));
    assert(made_from(refined(w, v, mid, frames, eps), mid));
}

/// All blocks have their share in what they give together.
pub proof fn law_blocks_use_every_weight(
    blocks: Seq<DecoderBlock>,
    v: Seq<Term>,
    x: Term,
    frames: u32,
    eps: Scalar,
    n: nat,
)
    requires
        n <= blocks.len(),
    ensures
        made_from(blocks_output(blocks, v, x, frames, eps, n), x),
        forall|i: int|
            0 <= i < n ==> uses_block(
                blocks_output(blocks, v, x, frames, eps, n),
                v,
                #[trigger] blocks[i],
            ),
    decreases n,
{
    if n > 0 {
        let before = blocks_output(blocks, v, x, frames, eps, (n - 1) as nat);
        law_blocks_use_every_weight(blocks, v, x, frames, eps, (n - 1) as nat);
        lemma_block_origins(blocks[n - 1], v, before, frames, eps);
    }
}

proof fn lemma_stage_input_origins(stage: DecoderStage, v: Seq<Term>, x: Term, frames: u32)
    ensures
        made_from(stage_input(stage, v, x, frames), x),
        stage.upsample matches Some(u) ==> made_from(
            stage_input(stage, v, x, frames),
            v[u.weight as int],
        ) && made_from(stage_input(stage, v, x, frames), v[u.bias as int]),
{
    broadcast use group_origins;

    reveal(stage_input);
}

/// All stages have their share in what they give together.
pub proof fn law_stages_use_every_weight(
    w: VibeVoiceAcousticDecoder,
    v: Seq<Term>,
    x: Term,
    frames: int,
    n: nat,
)
    requires
        n <= w.stages@.len(),
    ensures
        made_from(stages_output(w, v, x, frames, n), x),
        forall|i: int|
            0 <= i < n ==> uses_stage(
                stages_output(w, v, x, frames, n),
                v,
                #[trigger] w.stages@[i],
            ),
    decreases n,
{
    if n > 0 {
        let j = (n - 1) as nat;
        let stage = w.stages@[n - 1];
        let before = stages_output(w, v, x, frames, j);
        law_stages_use_every_weight(w, v, x, frames, j);
        let a = frames_after(w.ratios@, frames, n - 2) as u32;
        let b = frames_after(w.ratios@, frames, n - 1) as u32;
        let input = stage_input(stage, v, before, a);
        lemma_stage_input_origins(stage, v, before, a);
        let count = stage.blocks@.len();
        law_blocks_use_every_weight(stage.blocks@, v, input, b, w.norm_eps, count);
        let t = stages_output(w, v, x, frames, n);
        assert(made_from(t, input));
        assert forall|i: int| 0 <= i < n implies uses_stage(t, v, #[trigger] w.stages@[i]) by {
            if i < j {
                assert(uses_stage(before, v, w.stages@[i]));
            }
        }
    }
}

/// A waveform is made from the latents and from all weights of the decoder.
pub proof fn law_waveforms_use_every_weight(
    w: VibeVoiceAcousticDecoder,
    v: Seq<Term>,
    latents: Term,
    frames: int,
)
    requires
        w.stages@.len() == 7,
    ensures
        ({
            let t = decoded(w, v, latents, frames);
            &&& made_from(t, latents)
            &&& uses_conv(t, v, w.stem)
            &&& uses_conv(t, v, w.head)
            &&& forall|i: int| 0 <= i < 7 ==> uses_stage(t, v, #[trigger] w.stages@[i])
        }),
{
    broadcast use group_origins;

    let a = transpose_f16(latents, frames as u32, w.latent_dim as u32);
    let b = convolved(w.stem, v, a, frames as u32);
    lemma_conv_origins(w.stem, v, a, frames as u32);
    let stem = transpose_f16(b, 2048, frames as u32);
    assert(made_from(stem, b));
    law_stages_use_every_weight(w, v, stem, frames, 7);
    let all = frames_after(w.ratios@, frames, 6) as u32;
    let c = stages_output(w, v, stem, frames, 7);
    let d = transpose_f16(c, all, 32);
    assert(made_from(d, c));
    lemma_conv_origins(w.head, v, d, all);
    let t = decoded(w, v, latents, frames);
    assert forall|i: int| 0 <= i < 7 implies uses_stage(t, v, #[trigger] w.stages@[i]) by {
        assert(uses_stage(c, v, w.stages@[i]));
    }
}

/// A block whose mixer and whose network give nothing passes its rows on.
pub proof fn law_idle_blocks_pass_their_rows_on(
    m: Machine,
    w: DecoderBlock,
    v: Seq<Term>,
    x: Term,
    frames: u32,
    eps: Scalar,
)
    requires
        neutral(m),
        absorbing(m),
        forall|y: Term| blank(m, #[trigger] convolved(w.mixer, v, y, frames)),
        silent(m, false, v[w.ffn_down as int]),
        blank(m, v[w.ffn_down_bias as int]),
    ensures
        alike(m, block_output(w, v, x, frames, eps), x),
{
    reveal(block_output);
    let c = w.channels as u32;
    let n = (frames * c) as u32;
    let wide = (4 * c) as u32;
    let normed = transpose_f16(rms_norm(x, v[w.norm as int], frames, c, eps), frames, c);
    let a = convolved(w.mixer, v, normed, frames);
    let turned = transpose_f16(a, c, frames);
    lemma_blank_turned(m, a, c, frames);
    lemma_blank_scaled(m, turned, v[w.gamma as int], n, c);
    lemma_blank_added(m, x, mul_f16_broadcast(turned, v[w.gamma as int], n, c), n);
    let mid = mixed(w, v, x, frames, eps);
    assert(alike(m, mid, x));
    let up = linear(
        rms_norm(mid, v[w.ffn_norm as int], frames, c, eps),
        v[w.ffn_up as int],
        v[w.ffn_up_bias as int],
        frames,
        wide,
        c,
    );
    let g = gelu_erf_f16(up, (frames * wide) as u32);
    let (e, f) = (v[w.ffn_down as int], v[w.ffn_down_bias as int]);
    let down = linear(g, e, f, frames, c, wide);
    lemma_blank_map(m, g, e, f, frames, c, wide);
    lemma_blank_scaled(m, down, v[w.ffn_gamma as int], n, c);
    lemma_blank_added(m, mid, mul_f16_broadcast(down, v[w.ffn_gamma as int], n, c), n);
}

/// A connected latent is made from the latent and from all weights of the
/// connector.
pub proof fn law_connections_use_every_weight(
    w: VibeVoiceGenerationWeights,
    v: Seq<Term>,
    latent: Term,
)
    ensures
        ({
            let t = connected(w, v, latent);
            &&& made_from(t, latent)
            &&& made_from(t, v[w.fc1 as int])
            &&& made_from(t, v[w.fc1_bias as int])
            &&& made_from(t, v[w.norm as int])
            &&& made_from(t, v[w.fc2 as int])
            &&& made_from(t, v[w.fc2_bias as int])
        }),
{
    broadcast use group_origins;

}

/// The logit of the end is made from the hidden state and from all weights of
/// its classifier.
pub proof fn law_ends_use_every_weight(w: VibeVoiceGenerationWeights, v: Seq<Term>, hidden: Term)
    ensures
        ({
            let t = end_logit(w, v, hidden);
            &&& made_from(t, hidden)
            &&& made_from(t, v[w.eos_fc1 as int])
            &&& made_from(t, v[w.eos_fc1_bias as int])
            &&& made_from(t, v[w.eos_fc2 as int])
            &&& made_from(t, v[w.eos_fc2_bias as int])
        }),
{
    broadcast use group_origins;

}

/// Text and speech have rows of their own: text the first, speech the second.
pub proof fn law_types_have_their_own_rows(
    m: Machine,
    w: VibeVoiceGenerationWeights,
    v: Seq<Term>,
    c: int,
)
    requires
        w.hidden <= u32::MAX,
        0 <= c < w.hidden,
    ensures
        ({
            let table = numbers(m, v[w.input_types as int]);
            &&& numbers(m, type_row(w, v, false))(c) == (m.each)(
                Kernel::CopyBf16ToF32,
                table(c),
                Seq::empty(),
            )
            &&& numbers(m, type_row(w, v, true))(c) == (m.each)(
                Kernel::CopyBf16ToF32,
                table(w.hidden + c),
                Seq::empty(),
            )
        }),
{
    broadcast use group_numbers;

    let a = copy_from(v[w.input_types as int], w.hidden, 0);
    let b = copy_from(v[w.input_types as int], w.hidden, w.hidden);
    assert(a->args.len() == 1 && b->args.len() == 1);
    let n = w.hidden as u32;
    assert(copy_bf16_to_f32(a, n)->args.len() == 1 && copy_bf16_to_f32(b, n)->args.len() == 1);
    assert(seq![Scalar::Count(n)].skip(1) =~= Seq::empty());
}

/// Embedded text is made from the tokens and from the embeddings.
pub proof fn law_embeddings_use_the_tokens(w: VibeVoiceGenerationWeights, v: Seq<Term>, ids: Seq<u32>)
    ensures
        made_from(embedded(w, v, ids), Term::Integers(signed_ids(ids))),
        made_from(embedded(w, v, ids), v[w.embeddings as int]),
{
    broadcast use group_origins;

}

/// What a block's network adds has passed its activation: where that gives
/// nothing, the rows stay as they are.
pub proof fn law_networks_are_activated(
    m: Machine,
    w: DecoderBlock,
    v: Seq<Term>,
    x: Term,
    frames: u32,
    eps: Scalar,
)
    requires
        neutral(m),
        still(m),
        absorbing(m),
        quiet(m, Kernel::GeluErfF16),
        blank(m, v[w.ffn_down_bias as int]),
    ensures
        alike(m, refined(w, v, x, frames, eps), x),
{
    let c = w.channels as u32;
    let wide = (4 * c) as u32;
    let n = (frames * c) as u32;
    let up = linear(
        rms_norm(x, v[w.ffn_norm as int], frames, c, eps),
        v[w.ffn_up as int],
        v[w.ffn_up_bias as int],
        frames,
        wide,
        c,
    );
    let g = gelu_erf_f16(up, (frames * wide) as u32);
    lemma_quiet(m, up, (frames * wide) as u32);
    let (e, f) = (v[w.ffn_down as int], v[w.ffn_down_bias as int]);
    let down = linear(g, e, f, frames, c, wide);
    lemma_blank_through(m, g, e, f, frames, c, wide);
    lemma_blank_scaled(m, down, v[w.ffn_gamma as int], n, c);
    lemma_blank_added(m, x, mul_f16_broadcast(down, v[w.ffn_gamma as int], n, c), n);
}

} // verus!
