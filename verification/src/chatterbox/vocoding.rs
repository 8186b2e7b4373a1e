//! What the vocoder promises: what a spectrum is made from, and what its
//! residual blocks and stages add.
use vstd::prelude::*;
use crate::chatterbox::hift::{
    ChatterboxF0Predictor, ChatterboxHiFT, Conv1d, ConvTranspose1d, HiFTResBlock, SLOPE_001, block_value, conv_len, convolved,
    down_kernel, down_padding, down_stride, f0_stream, frames_after, pair_dilation, pair_value,
    stage_frames, transposed_len, up_kernel, up_output, up_padding, up_stride,
};
use crate::device::{Plan, Scalar, Term};
use crate::device::kernels::Kernel;
use crate::device::meaning::{
    Machine, alike, blank, group_numbers, group_origins, lemma_copy, made_from, neutral, numbers,
    silent,
};
use crate::device::value::{
    add_bias_f16_inplace, add_f16, copy_f16_at, leaky_relu_f16, matmul_f16, snake_f16, third_f16,
    transpose_f16, unfold_conv1d_f16,
};

verus! {

/// The weight and the bias of a convolution go into `t`.
pub open spec fn uses_conv(t: Term, plan: Plan, conv: Conv1d) -> bool {
    &&& made_from(t, plan.values()[conv.weight as int])
    &&& made_from(t, plan.values()[conv.bias as int])
}

/// The weight and the bias of a transposed convolution go into `t`.
pub open spec fn uses_up(t: Term, plan: Plan, up: ConvTranspose1d) -> bool {
    &&& made_from(t, plan.values()[up.weight as int])
    &&& made_from(t, plan.values()[up.bias as int])
}

/// The slopes, weights and biases of a residual block go into `t`.
pub open spec fn uses_block(t: Term, plan: Plan, block: HiFTResBlock) -> bool {
    forall|k: int|
        0 <= k < 6 ==> {
            &&& uses_conv(t, plan, #[trigger] block.conv(k))
            &&& made_from(t, plan.values()[block.first + 4 * k])
        }
}

/// Everything that a stage is made of goes into `t`.
pub open spec fn uses_stage(t: Term, plan: Plan, w: ChatterboxHiFT, stage: int) -> bool {
    &&& uses_up(t, plan, w.ups@[stage])
    &&& uses_conv(t, plan, w.source_downs@[stage])
    &&& uses_block(t, plan, w.source_resblocks@[stage])
    &&& uses_block(t, plan, w.resblocks@[3 * stage])
    &&& uses_block(t, plan, w.resblocks@[3 * stage + 1])
    &&& uses_block(t, plan, w.resblocks@[3 * stage + 2])
}

proof fn lemma_convolved_origins(
    x: Term,
    conv: Conv1d,
    plan: Plan,
    input_len: int,
    stride: int,
    padding: int,
    dilation: int,
)
    ensures
        made_from(convolved(x, conv, plan, input_len, stride, padding, dilation), x),
        uses_conv(convolved(x, conv, plan, input_len, stride, padding, dilation), plan, conv),
{
    broadcast use group_origins;

    reveal(convolved);
}

proof fn lemma_pair_origins(block: HiFTResBlock, plan: Plan, x: Term, frames: int, i: int)
    ensures
        ({
            let t = pair_value(block, plan, x, frames, i);
            &&& made_from(t, x)
            &&& uses_conv(t, plan, block.conv(2 * i))
            &&& uses_conv(t, plan, block.conv(2 * i + 1))
            &&& made_from(t, plan.values()[block.first + 8 * i])
            &&& made_from(t, plan.values()[block.first + 8 * i + 4])
        }),
{
    broadcast use group_origins;

    let v = plan.values();
    let c = block.channels as u32;
    let d = pair_dilation(i);
    let k = block.kernel as int;
    let a = snake_f16(x, v[block.first + 8 * i], c, frames as u32);
    let first = convolved(a, block.conv(2 * i), plan, frames, 1, (k * d - d) / 2, d);
    lemma_convolved_origins(a, block.conv(2 * i), plan, frames, 1, (k * d - d) / 2, d);
    let b = snake_f16(first, v[block.first + 8 * i + 4], c, frames as u32);
    lemma_convolved_origins(b, block.conv(2 * i + 1), plan, frames, 1, (k - 1) / 2, 1);
}

/// A residual block is made from its input and from all of its weights.
pub proof fn law_blocks_use_every_weight(block: HiFTResBlock, plan: Plan, x: Term, frames: int)
    ensures
        made_from(block_value(block, plan, x, frames, 3), x),
        uses_block(block_value(block, plan, x, frames, 3), plan, block),
{
    reveal_with_fuel(block_value, 4);
    let a = pair_value(block, plan, x, frames, 0);
    let b = pair_value(block, plan, a, frames, 1);
    let t = pair_value(block, plan, b, frames, 2);
    lemma_pair_origins(block, plan, x, frames, 0);
    lemma_pair_origins(block, plan, a, frames, 1);
    lemma_pair_origins(block, plan, b, frames, 2);
    assert forall|k: int| 0 <= k < 6 implies {
        &&& uses_conv(t, plan, #[trigger] block.conv(k))
        &&& made_from(t, plan.values()[block.first + 4 * k])
    } by {
        assert(k == 0 || k == 1 || k == 2 || k == 3 || k == 4 || k == 5);
    }
}

proof fn lemma_main_origins(w: ChatterboxHiFT, plan: Plan, x: Term, frames: int, stage: int)
    ensures
        made_from(w.main_branch(plan, x, frames, stage), x),
        uses_up(w.main_branch(plan, x, frames, stage), plan, w.ups@[stage]),
{
    broadcast use group_origins;

}

proof fn lemma_source_origins(w: ChatterboxHiFT, plan: Plan, source: Term, frames: int, stage: int)
    ensures
        ({
            let t = w.source_branch(plan, source, frames, stage);
            &&& made_from(t, source)
            &&& uses_conv(t, plan, w.source_downs@[stage])
            &&& uses_block(t, plan, w.source_resblocks@[stage])
        }),
{
    let down = convolved(
        source,
        w.source_downs@[stage],
        plan,
        frames * 120 + 1,
        down_stride(stage),
        down_padding(stage),
        1,
    );
    lemma_convolved_origins(
        source,
        w.source_downs@[stage],
        plan,
        frames * 120 + 1,
        down_stride(stage),
        down_padding(stage),
        1,
    );
    law_blocks_use_every_weight(w.source_resblocks@[stage], plan, down, frames_after(frames, stage));
}

proof fn lemma_branch_origins(
    w: ChatterboxHiFT,
    plan: Plan,
    x: Term,
    frames: int,
    stage: int,
    slot: int,
)
    ensures
        made_from(w.branch(plan, x, frames, stage, slot), x),
        uses_block(w.branch(plan, x, frames, stage, slot), plan, w.resblocks@[3 * stage + slot]),
{
    broadcast use group_origins;

    let len = frames_after(frames, stage);
    let n = up_output(stage) * len;
    let copy = copy_f16_at(x, Term::Zeros(n as nat), n as u32, 0);
    law_blocks_use_every_weight(w.resblocks@[3 * stage + slot], plan, copy, len);
}

/// A stage is made from the frames before it, from the excitation and from all
/// of its weights.
pub proof fn law_stages_use_the_excitation(
    w: ChatterboxHiFT,
    plan: Plan,
    x: Term,
    source: Term,
    frames: int,
    stage: int,
)
    ensures
        made_from(w.stage_value(plan, x, source, frames, stage), x),
        made_from(w.stage_value(plan, x, source, frames, stage), source),
        uses_stage(w.stage_value(plan, x, source, frames, stage), plan, w, stage),
{
    broadcast use group_origins;

    reveal(ChatterboxHiFT::stage_value);
    let n = (up_output(stage) * frames_after(frames, stage)) as u32;
    let main = w.main_branch(plan, x, frames, stage);
    let side = w.source_branch(plan, source, frames, stage);
    lemma_main_origins(w, plan, x, frames, stage);
    lemma_source_origins(w, plan, source, frames, stage);
    let fused = add_f16(main, side, n);
    let b0 = w.branch(plan, fused, frames, stage, 0);
    let b1 = w.branch(plan, fused, frames, stage, 1);
    let b2 = w.branch(plan, fused, frames, stage, 2);
    lemma_branch_origins(w, plan, fused, frames, stage, 0);
    lemma_branch_origins(w, plan, fused, frames, stage, 1);
    lemma_branch_origins(w, plan, fused, frames, stage, 2);
    let t = w.stage_value(plan, x, source, frames, stage);
    assert(made_from(t, b0) && made_from(t, b1) && made_from(t, b2));
    assert(made_from(fused, main) && made_from(fused, side));
    lemma_block_through(t, b0, plan, w.resblocks@[3 * stage]);
    lemma_block_through(t, b1, plan, w.resblocks@[3 * stage + 1]);
    lemma_block_through(t, b2, plan, w.resblocks@[3 * stage + 2]);
    lemma_block_through(t, side, plan, w.source_resblocks@[stage]);
}

/// What has its share in `x` has its share in what `x` goes into.
proof fn lemma_block_through(t: Term, x: Term, plan: Plan, block: HiFTResBlock)
    requires
        made_from(t, x),
        uses_block(x, plan, block),
    ensures
        uses_block(t, plan, block),
{
    assert forall|k: int| 0 <= k < 6 implies {
        &&& uses_conv(t, plan, #[trigger] block.conv(k))
        &&& made_from(t, plan.values()[block.first + 4 * k])
    } by {
        assert(uses_conv(x, plan, block.conv(k)));
    }
}

proof fn lemma_stage_through(t: Term, x: Term, plan: Plan, w: ChatterboxHiFT, stage: int)
    requires
        made_from(t, x),
        uses_stage(x, plan, w, stage),
    ensures
        uses_stage(t, plan, w, stage),
{
    lemma_block_through(t, x, plan, w.source_resblocks@[stage]);
    lemma_block_through(t, x, plan, w.resblocks@[3 * stage]);
    lemma_block_through(t, x, plan, w.resblocks@[3 * stage + 1]);
    lemma_block_through(t, x, plan, w.resblocks@[3 * stage + 2]);
}

/// A spectrum is made from the spectrogram, from the excitation and from the
/// weights of all stages.
pub proof fn law_spectra_use_the_excitation(
    w: ChatterboxHiFT,
    plan: Plan,
    mel: Term,
    source: Term,
    frames: int,
)
    ensures
        ({
            let t = w.spectrum(plan, mel, source, frames);
            &&& made_from(t, mel)
            &&& made_from(t, source)
            &&& uses_conv(t, plan, w.conv_pre)
            &&& uses_conv(t, plan, w.conv_post)
            &&& forall|stage: int|
                0 <= stage < 3 ==> {
                    &&& uses_up(t, plan, #[trigger] w.ups@[stage])
                    &&& uses_conv(t, plan, w.source_downs@[stage])
                    &&& uses_block(t, plan, w.source_resblocks@[stage])
                    &&& uses_stage(t, plan, w, stage)
                }
        }),
{
    broadcast use group_origins;

    reveal_with_fuel(ChatterboxHiFT::staged, 4);
    let turned = transpose_f16(mel, frames as u32, 80);
    let a = convolved(turned, w.conv_pre, plan, frames, 1, 3, 1);
    lemma_convolved_origins(turned, w.conv_pre, plan, frames, 1, 3, 1);
    let b = w.stage_value(plan, a, source, frames, 0);
    law_stages_use_the_excitation(w, plan, a, source, frames, 0);
    let c = w.stage_value(plan, b, source, frames, 1);
    law_stages_use_the_excitation(w, plan, b, source, frames, 1);
    let d = w.stage_value(plan, c, source, frames, 2);
    law_stages_use_the_excitation(w, plan, c, source, frames, 2);
    let n = frames * 120 + 1;
    let e = leaky_relu_f16(d, (64 * n) as u32, Scalar::Single(SLOPE_001));
    lemma_convolved_origins(e, w.conv_post, plan, n, 1, 3, 1);
    let t = w.spectrum(plan, mel, source, frames);
    assert(made_from(e, d));
    assert(made_from(t, d));
    assert(made_from(t, c));
    assert(made_from(t, b));
    assert(made_from(t, a));
    lemma_stage_through(t, b, plan, w, 0);
    lemma_stage_through(t, c, plan, w, 1);
    lemma_stage_through(t, d, plan, w, 2);
    assert forall|stage: int| 0 <= stage < 3 implies {
        &&& uses_up(t, plan, #[trigger] w.ups@[stage])
        &&& uses_conv(t, plan, w.source_downs@[stage])
        &&& uses_block(t, plan, w.source_resblocks@[stage])
        &&& uses_stage(t, plan, w, stage)
    } by {
        if stage == 0 {
            assert(uses_stage(t, plan, w, 0));
        } else if stage == 1 {
            assert(uses_stage(t, plan, w, 1));
        } else {
            assert(uses_stage(t, plan, w, 2));
        }
    }
}

proof fn lemma_convolved_tells(
    x: Term,
    y: Term,
    conv: Conv1d,
    plan: Plan,
    input_len: int,
    stride: int,
    padding: int,
    dilation: int,
)
    requires
        convolved(x, conv, plan, input_len, stride, padding, dilation) == convolved(
            y,
            conv,
            plan,
            input_len,
            stride,
            padding,
            dilation,
        ),
    ensures
        x == y,
{
    reveal(convolved);
    let a = convolved(x, conv, plan, input_len, stride, padding, dilation);
    let b = convolved(y, conv, plan, input_len, stride, padding, dilation);
    assert(a->args[0]->args[0]->args[0]->args[0] == x);
    assert(b->args[0]->args[0]->args[0]->args[0] == y);
}

proof fn lemma_block_tells(block: HiFTResBlock, plan: Plan, x: Term, y: Term, frames: int, n: nat)
    requires
        block_value(block, plan, x, frames, n) == block_value(block, plan, y, frames, n),
    ensures
        x == y,
    decreases n,
{
    if n > 0 {
        let a = block_value(block, plan, x, frames, (n - 1) as nat);
        let b = block_value(block, plan, y, frames, (n - 1) as nat);
        assert(pair_value(block, plan, a, frames, n - 1)->args[0] == a);
        assert(pair_value(block, plan, b, frames, n - 1)->args[0] == b);
        lemma_block_tells(block, plan, x, y, frames, (n - 1) as nat);
    }
}

proof fn lemma_stage_tells(
    w: ChatterboxHiFT,
    plan: Plan,
    x: Term,
    y: Term,
    source: Term,
    other: Term,
    frames: int,
    stage: int,
)
    requires
        w.stage_value(plan, x, source, frames, stage) == w.stage_value(plan, y, other, frames, stage),
    ensures
        x == y,
        source == other,
{
    reveal(ChatterboxHiFT::stage_value);
    let n = (up_output(stage) * frames_after(frames, stage)) as u32;
    let len = frames_after(frames, stage);
    let size = up_output(stage) * len;
    let a = add_f16(
        w.main_branch(plan, x, frames, stage),
        w.source_branch(plan, source, frames, stage),
        n,
    );
    let b = add_f16(
        w.main_branch(plan, y, frames, stage),
        w.source_branch(plan, other, frames, stage),
        n,
    );
    let ta = w.stage_value(plan, x, source, frames, stage);
    let tb = w.stage_value(plan, y, other, frames, stage);
    assert(ta->args[0]->args[0]->args[0] == w.branch(plan, a, frames, stage, 0));
    assert(tb->args[0]->args[0]->args[0] == w.branch(plan, b, frames, stage, 0));
    let ca = copy_f16_at(a, Term::Zeros(size as nat), size as u32, 0);
    let cb = copy_f16_at(b, Term::Zeros(size as nat), size as u32, 0);
    lemma_block_tells(w.resblocks@[3 * stage], plan, ca, cb, len, 3);
    assert(ca->args[0] == a && cb->args[0] == b);
    assert(a->args[0] == w.main_branch(plan, x, frames, stage));
    assert(b->args[0] == w.main_branch(plan, y, frames, stage));
    assert(a->args[1] == w.source_branch(plan, source, frames, stage));
    assert(b->args[1] == w.source_branch(plan, other, frames, stage));
    let mx = w.main_branch(plan, x, frames, stage);
    let my = w.main_branch(plan, y, frames, stage);
    if stage == 2 {
        assert(mx->args[0]->args[0]->args[0] == x);
        assert(my->args[0]->args[0]->args[0] == y);
    } else {
        assert(mx->args[0]->args[0] == x);
        assert(my->args[0]->args[0] == y);
    }
    let stride = down_stride(stage);
    let padding = down_padding(stage);
    let down = w.source_downs@[stage];
    let da = convolved(source, down, plan, frames * 120 + 1, stride, padding, 1);
    let db = convolved(other, down, plan, frames * 120 + 1, stride, padding, 1);
    lemma_block_tells(w.source_resblocks@[stage], plan, da, db, len, 3);
    lemma_convolved_tells(source, other, down, plan, frames * 120 + 1, stride, padding, 1);
}

/// Different excitations, and different spectrograms, give different spectra.
pub proof fn law_spectra_tell_excitations_apart(
    w: ChatterboxHiFT,
    plan: Plan,
    mel: Term,
    other_mel: Term,
    source: Term,
    other_source: Term,
    frames: int,
)
    requires
        mel != other_mel || source != other_source,
    ensures
        w.spectrum(plan, mel, source, frames) != w.spectrum(plan, other_mel, other_source, frames),
{
    if w.spectrum(plan, mel, source, frames) == w.spectrum(plan, other_mel, other_source, frames) {
        reveal_with_fuel(ChatterboxHiFT::staged, 4);
        let n = frames * 120 + 1;
        let slope = Scalar::Single(SLOPE_001);
        let x = w.staged(plan, mel, source, frames, 3);
        let y = w.staged(plan, other_mel, other_source, frames, 3);
        let ex = leaky_relu_f16(x, (64 * n) as u32, slope);
        let ey = leaky_relu_f16(y, (64 * n) as u32, slope);
        lemma_convolved_tells(ex, ey, w.conv_post, plan, n, 1, 3, 1);
        assert(ex->args[0] == x && ey->args[0] == y);
        let x2 = w.staged(plan, mel, source, frames, 2);
        let y2 = w.staged(plan, other_mel, other_source, frames, 2);
        lemma_stage_tells(w, plan, x2, y2, source, other_source, frames, 2);
        let x1 = w.staged(plan, mel, source, frames, 1);
        let y1 = w.staged(plan, other_mel, other_source, frames, 1);
        lemma_stage_tells(w, plan, x1, y1, source, other_source, frames, 1);
        let x0 = w.staged(plan, mel, source, frames, 0);
        let y0 = w.staged(plan, other_mel, other_source, frames, 0);
        lemma_stage_tells(w, plan, x0, y0, source, other_source, frames, 0);
        let mx = transpose_f16(mel, frames as u32, 80);
        let my = transpose_f16(other_mel, frames as u32, 80);
        lemma_convolved_tells(mx, my, w.conv_pre, plan, frames, 1, 3, 1);
        assert(mx->args[0] == mel && my->args[0] == other_mel);
    }
}

/// A convolution gives nothing: its weights do, and its bias is 0.
pub open spec fn silent_conv(m: Machine, plan: Plan, conv: Conv1d) -> bool {
    &&& silent(m, false, plan.values()[conv.weight as int])
    &&& blank(m, plan.values()[conv.bias as int])
}

/// No pair of convolutions of a block adds anything.
pub open spec fn idle_block(m: Machine, plan: Plan, block: HiFTResBlock) -> bool {
    &&& silent_conv(m, plan, block.conv(1))
    &&& silent_conv(m, plan, block.conv(3))
    &&& silent_conv(m, plan, block.conv(5))
}

proof fn lemma_silent_convolution(
    m: Machine,
    x: Term,
    conv: Conv1d,
    plan: Plan,
    input_len: int,
    stride: int,
    padding: int,
    dilation: int,
)
    requires
        neutral(m),
        silent_conv(m, plan, conv),
    ensures
        blank(m, convolved(x, conv, plan, input_len, stride, padding, dilation)),
{
    broadcast use group_numbers;

    reveal(convolved);
    let out_len = conv_len(input_len, conv.kernel as int, stride, padding, dilation) as u32;
    let width = (conv.in_channels * conv.kernel) as u32;
    let out = conv.out_channels as u32;
    let unfolded = unfold_conv1d_f16(
        x,
        conv.in_channels as u32,
        input_len as u32,
        out_len,
        conv.kernel as u32,
        stride as u32,
        padding as u32,
        dilation as u32,
    );
    let a = matmul_f16(unfolded, plan.values()[conv.weight as int], out_len, out, width);
    assert(a->args.len() == 2);
    let b = add_bias_f16_inplace(a, plan.values()[conv.bias as int], out_len, out);
    assert(b->args.len() == 2);
    let c = transpose_f16(b, out_len, out);
    assert(c->args.len() == 1);
    assert forall|j: int| #[trigger] numbers(m, c)(j) == 0 by {
        let i = j % (out_len as int) * out + j / (out_len as int);
        assert(numbers(m, c)(j) == numbers(m, b)(i));
        assert(numbers(m, b)(i) == (m.add)(
            numbers(m, a)(i),
            numbers(m, plan.values()[conv.bias as int])(i % (out as int)),
        ));
    }
}

/// A residual block whose convolutions add nothing leaves its input as it is.
pub proof fn law_idle_blocks_keep_their_input(
    m: Machine,
    block: HiFTResBlock,
    plan: Plan,
    x: Term,
    frames: int,
)
    requires
        neutral(m),
        idle_block(m, plan, block),
    ensures
        alike(m, block_value(block, plan, x, frames, 3), x),
{
    reveal_with_fuel(block_value, 4);
    let a = pair_value(block, plan, x, frames, 0);
    let b = pair_value(block, plan, a, frames, 1);
    lemma_idle_pair(m, block, plan, x, frames, 0);
    lemma_idle_pair(m, block, plan, a, frames, 1);
    lemma_idle_pair(m, block, plan, b, frames, 2);
}

proof fn lemma_idle_pair(m: Machine, block: HiFTResBlock, plan: Plan, x: Term, frames: int, i: int)
    requires
        neutral(m),
        silent_conv(m, plan, block.conv(2 * i + 1)),
    ensures
        alike(m, pair_value(block, plan, x, frames, i), x),
{
    broadcast use group_numbers;

    let v = plan.values();
    let c = block.channels as u32;
    let d = pair_dilation(i);
    let k = block.kernel as int;
    let a = snake_f16(x, v[block.first + 8 * i], c, frames as u32);
    let first = convolved(a, block.conv(2 * i), plan, frames, 1, (k * d - d) / 2, d);
    let b = snake_f16(first, v[block.first + 8 * i + 4], c, frames as u32);
    let second = convolved(b, block.conv(2 * i + 1), plan, frames, 1, (k - 1) / 2, 1);
    lemma_silent_convolution(m, b, block.conv(2 * i + 1), plan, frames, 1, (k - 1) / 2, 1);
    let t = pair_value(block, plan, x, frames, i);
    assert(t == add_f16(x, second, (block.channels * frames) as u32));
    assert(t->args.len() == 2);
    assert forall|j: int| #[trigger] numbers(m, t)(j) == numbers(m, x)(j) by {
        assert(numbers(m, t)(j) == (m.add)(numbers(m, x)(j), numbers(m, second)(j)));
    }
}

/// A third of three times a number is that number.
pub open spec fn thirds(m: Machine) -> bool {
    forall|a: int|
        (m.each)(Kernel::ThirdF16, #[trigger] (m.add)((m.add)(a, a), a), Seq::empty()) == a
}

/// Where its residual blocks add nothing, a stage is the upsampled frames plus
/// what came of the excitation: the mean of three equal branches is any of them.
pub proof fn law_idle_stages_add_the_excitation(
    m: Machine,
    w: ChatterboxHiFT,
    plan: Plan,
    x: Term,
    source: Term,
    frames: int,
    stage: int,
    j: int,
)
    requires
        neutral(m),
        thirds(m),
        idle_block(m, plan, w.resblocks@[3 * stage]),
        idle_block(m, plan, w.resblocks@[3 * stage + 1]),
        idle_block(m, plan, w.resblocks@[3 * stage + 2]),
        0 <= j < up_output(stage) * frames_after(frames, stage) <= u32::MAX,
    ensures
        numbers(m, w.stage_value(plan, x, source, frames, stage))(j) == (m.add)(
            numbers(m, w.main_branch(plan, x, frames, stage))(j),
            numbers(m, w.source_branch(plan, source, frames, stage))(j),
        ),
{
    broadcast use group_numbers;

    reveal(ChatterboxHiFT::stage_value);
    let len = frames_after(frames, stage);
    let size = up_output(stage) * len;
    let n = size as u32;
    let main = w.main_branch(plan, x, frames, stage);
    let side = w.source_branch(plan, source, frames, stage);
    let fused = add_f16(main, side, n);
    assert(fused->args.len() == 2);
    let copy = copy_f16_at(fused, Term::Zeros(size as nat), n, 0);
    lemma_copy(m, fused, Term::Zeros(size as nat), n, 0);
    let f = (m.add)(numbers(m, main)(j), numbers(m, side)(j));
    law_idle_blocks_keep_their_input(m, w.resblocks@[3 * stage], plan, copy, len);
    law_idle_blocks_keep_their_input(m, w.resblocks@[3 * stage + 1], plan, copy, len);
    law_idle_blocks_keep_their_input(m, w.resblocks@[3 * stage + 2], plan, copy, len);
    let b0 = w.branch(plan, fused, frames, stage, 0);
    let b1 = w.branch(plan, fused, frames, stage, 1);
    let b2 = w.branch(plan, fused, frames, stage, 2);
    assert(numbers(m, b0)(j) == numbers(m, copy)(j));
    assert(numbers(m, b1)(j) == numbers(m, copy)(j));
    assert(numbers(m, b2)(j) == numbers(m, copy)(j));
    let s01 = add_f16(b0, b1, n);
    assert(s01->args.len() == 2);
    let s012 = add_f16(s01, b2, n);
    assert(s012->args.len() == 2);
    let t = third_f16(s012, n);
    assert(t->args.len() == 1);
    assert(seq![Scalar::Count(n)].skip(1) =~= Seq::empty());
}

/// Where its residual block adds nothing, the excitation's branch is the
/// downsampled excitation.
pub proof fn law_idle_source_branches_are_the_excitation(
    m: Machine,
    w: ChatterboxHiFT,
    plan: Plan,
    source: Term,
    frames: int,
    stage: int,
)
    requires
        neutral(m),
        idle_block(m, plan, w.source_resblocks@[stage]),
    ensures
        alike(
            m,
            w.source_branch(plan, source, frames, stage),
            convolved(
                source,
                w.source_downs@[stage],
                plan,
                frames * 120 + 1,
                down_stride(stage),
                down_padding(stage),
                1,
            ),
        ),
{
    let down = convolved(
        source,
        w.source_downs@[stage],
        plan,
        frames * 120 + 1,
        down_stride(stage),
        down_padding(stage),
        1,
    );
    law_idle_blocks_keep_their_input(
        m,
        w.source_resblocks@[stage],
        plan,
        down,
        frames_after(frames, stage),
    );
}

/// Where its residual blocks add nothing and the excitation counts for nothing,
/// a stage is the upsampled frames alone.
pub proof fn law_idle_stages_keep_the_frames(
    m: Machine,
    w: ChatterboxHiFT,
    plan: Plan,
    x: Term,
    source: Term,
    frames: int,
    stage: int,
    j: int,
)
    requires
        neutral(m),
        thirds(m),
        idle_block(m, plan, w.resblocks@[3 * stage]),
        idle_block(m, plan, w.resblocks@[3 * stage + 1]),
        idle_block(m, plan, w.resblocks@[3 * stage + 2]),
        idle_block(m, plan, w.source_resblocks@[stage]),
        silent_conv(m, plan, w.source_downs@[stage]),
        0 <= j < up_output(stage) * frames_after(frames, stage) <= u32::MAX,
    ensures
        numbers(m, w.stage_value(plan, x, source, frames, stage))(j) == numbers(
            m,
            w.main_branch(plan, x, frames, stage),
        )(j),
{
    law_idle_stages_add_the_excitation(m, w, plan, x, source, frames, stage, j);
    law_idle_source_branches_are_the_excitation(m, w, plan, source, frames, stage);
    lemma_silent_convolution(
        m,
        source,
        w.source_downs@[stage],
        plan,
        frames * 120 + 1,
        down_stride(stage),
        down_padding(stage),
        1,
    );
}

/// The downsampled excitation and the upsampled frames of every stage have one
/// length, so that they can be added.
pub proof fn law_both_branches_have_one_length(frames: int, stage: int)
    requires
        0 < frames,
        0 <= stage < 3,
    ensures
        conv_len(
            frames * 120 + 1,
            down_kernel(stage),
            down_stride(stage),
            down_padding(stage),
            1,
        ) == frames_after(frames, stage),
        transposed_len(
            stage_frames(frames, stage),
            up_kernel(stage),
            up_stride(stage),
            up_padding(stage),
        ) + (if stage == 2 { 1int } else { 0 }) == frames_after(frames, stage),
{
}

/// The fundamental is predicted from the spectrogram and from all layers.
pub proof fn law_fundamentals_use_every_layer(
    layers: Seq<Conv1d>,
    plan: Plan,
    x: Term,
    frames: int,
    n: nat,
)
    requires
        n <= layers.len(),
    ensures
        made_from(f0_stream(layers, plan, x, frames, n), x),
        forall|i: int|
            0 <= i < n ==> uses_conv(
                f0_stream(layers, plan, x, frames, n),
                plan,
                #[trigger] layers[i],
            ),
    decreases n,
{
    broadcast use group_origins;

    if n > 0 {
        let before = f0_stream(layers, plan, x, frames, (n - 1) as nat);
        law_fundamentals_use_every_layer(layers, plan, x, frames, (n - 1) as nat);
        lemma_convolved_origins(before, layers[n - 1], plan, frames, 1, 1, 1);
    }
}

/// The fundamental of every frame is made from the spectrogram, from all layers
/// and from the classifier.
pub proof fn law_fundamentals_use_the_classifier(
    w: ChatterboxF0Predictor,
    plan: Plan,
    mel: Term,
    frames: int,
)
    requires
        w.layers@.len() == 5,
    ensures
        ({
            let t = w.fundamental(plan, mel, frames);
            &&& made_from(t, mel)
            &&& made_from(t, plan.values()[w.classifier_weight as int])
            &&& forall|i: int| 0 <= i < 5 ==> uses_conv(t, plan, #[trigger] w.layers@[i])
        }),
{
    broadcast use group_origins;

    let x = transpose_f16(mel, frames as u32, 80);
    law_fundamentals_use_every_layer(w.layers@, plan, x, frames, 5);
    let y = f0_stream(w.layers@, plan, x, frames, 5);
    let t = w.fundamental(plan, mel, frames);
    assert(made_from(t, y));
    assert forall|i: int| 0 <= i < 5 implies uses_conv(t, plan, #[trigger] w.layers@[i]) by {
        assert(uses_conv(y, plan, w.layers@[i]));
    }
}

} // verus!
