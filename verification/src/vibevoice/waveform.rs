//! Running the acoustic decoder.
use vstd::prelude::*;
use vstd::string::*;
use crate::arith::lemma_mul_comm;
use crate::device::{Plan, Scalar, Term, extends, holds};
use crate::device::compound::{linear, run_linear, run_sum, run_transposed};
use crate::device::value::{
    add_f16, conv1d_causal_f16, conv_transpose1d_causal_f16, gelu_erf_f16, mul_f16_broadcast, rms_norm,
    transpose_f16,
};
use crate::number::{all_finite, are_finite};
use crate::vibevoice::config::ratio_product;
use crate::vibevoice::decoder::{
    Conv1d, DecoderBlock, DecoderStage, VibeVoiceAcousticDecoder, stage_width, width,
};

verus! {

/// A causal convolution over channel-first data.
pub open spec fn convolved(c: Conv1d, v: Seq<Term>, x: Term, frames: u32) -> Term {
    conv1d_causal_f16(
        x,
        v[c.weight as int],
        v[c.bias as int],
        c.input_channels as u32,
        c.output_channels as u32,
        frames,
        c.kernel as u32,
        1,
        c.groups as u32,
    )
}

/// Runs a causal convolution. The result names a fresh buffer.
fn run_conv(plan: &mut Plan, conv: &Conv1d, x: usize, frames: u32, Ghost(start): Ghost<Plan>) -> (out:
    usize)
    requires
        old(plan).wf(),
        extends(start, *old(plan)),
        conv.fits(start),
        conv.narrow(),
        holds(*old(plan), x, conv.input_channels * frames),
        conv.output_channels * frames <= usize::MAX,
    ensures
        final(plan).wf(),
        extends(*old(plan), *final(plan)),
        out == old(plan).values().len(),
        final(plan).values().len() == out + 1,
        final(plan).sizes()[out as int] == conv.output_channels * frames,
        final(plan).values()[out as int] == convolved(
            *conv,
            start.values(),
            old(plan).values()[x as int],
            frames,
        ),
{
    let out: usize = plan.zeros(conv.output_channels * frames as usize);
    plan.conv1d_causal_f16(
        x,
        conv.weight,
        conv.bias,
        out,
        conv.input_channels as u32,
        conv.output_channels as u32,
        frames,
        conv.kernel as u32,
        1,
        conv.groups as u32,
    );
    out
}

/// The first half of a block: mixing over time.
pub open spec fn mixed(w: DecoderBlock, v: Seq<Term>, x: Term, frames: u32, eps: Scalar) -> Term {
    let c = w.channels as u32;
    let n = (frames * c) as u32;
    let normed = rms_norm(x, v[w.norm as int], frames, c, eps);
    let turned = transpose_f16(
        convolved(w.mixer, v, transpose_f16(normed, frames, c), frames),
        c,
        frames,
    );
    add_f16(x, mul_f16_broadcast(turned, v[w.gamma as int], n, c), n)
}

/// The second half of a block: mixing over channels.
pub open spec fn refined(w: DecoderBlock, v: Seq<Term>, x: Term, frames: u32, eps: Scalar) -> Term {
    let c = w.channels as u32;
    let wide = (4 * c) as u32;
    let n = (frames * c) as u32;
    let up = linear(
        rms_norm(x, v[w.ffn_norm as int], frames, c, eps),
        v[w.ffn_up as int],
        v[w.ffn_up_bias as int],
        frames,
        wide,
        c,
    );
    let down = linear(
        gelu_erf_f16(up, (frames * wide) as u32),
        v[w.ffn_down as int],
        v[w.ffn_down_bias as int],
        frames,
        c,
        wide,
    );
    add_f16(x, mul_f16_broadcast(down, v[w.ffn_gamma as int], n, c), n)
}

/// The rows after a block.
#[verifier::opaque]
pub open spec fn block_output(w: DecoderBlock, v: Seq<Term>, x: Term, frames: u32, eps: Scalar) -> Term {
    refined(w, v, mixed(w, v, x, frames, eps), frames, eps)
}

/// Everything a block counts can be counted.
pub open spec fn block_countable(channels: int, frames: int) -> bool {
    &&& 0 < frames
    &&& 4 * (channels * frames) <= u32::MAX
    &&& 4 * (channels * frames) <= usize::MAX
}

/// The mixer of a block keeps the channels.
pub open spec fn keeps_channels(w: DecoderBlock) -> bool {
    &&& w.mixer.narrow()
    &&& w.mixer.output_channels == w.channels
}

/// Runs the first half of a block. The result names a fresh buffer.
fn run_mixed(
    plan: &mut Plan,
    w: &DecoderBlock,
    x: usize,
    frames: u32,
    eps: Scalar,
    Ghost(start): Ghost<Plan>,
) -> (out: usize)
    requires
        old(plan).wf(),
        extends(start, *old(plan)),
        w.fits(start),
        keeps_channels(*w),
        w.mixer.input_channels == w.channels,
        0 < w.channels <= 2048,
        block_countable(w.channels as int, frames as int),
        holds(*old(plan), x, frames * w.channels),
    ensures
        final(plan).wf(),
        extends(*old(plan), *final(plan)),
        out < final(plan).values().len(),
        final(plan).sizes()[out as int] == frames * w.channels,
        final(plan).values()[out as int] == mixed(
            *w,
            start.values(),
            old(plan).values()[x as int],
            frames,
            eps,
        ),
{
    let c: u32 = w.channels as u32;
    proof {
        lemma_mul_comm(w.channels as int, frames as int);
    }
    let n: u32 = frames * c;
    let normed: usize = plan.zeros(n as usize);
    plan.rms_norm(x, w.norm, normed, frames, c, eps);
    let turned: usize = run_transposed(plan, normed, frames, c);
    let convolved_rows: usize = run_conv(plan, &w.mixer, turned, frames, Ghost(start));
    let rows: usize = run_transposed(plan, convolved_rows, c, frames);
    let scaled: usize = plan.zeros(n as usize);
    plan.mul_f16_broadcast(rows, w.gamma, scaled, n, c);
    run_sum(plan, x, scaled, n)
}

/// Runs the second half of a block. The result names a fresh buffer.
fn run_refined(
    plan: &mut Plan,
    w: &DecoderBlock,
    x: usize,
    frames: u32,
    eps: Scalar,
    Ghost(start): Ghost<Plan>,
) -> (out: usize)
    requires
        old(plan).wf(),
        extends(start, *old(plan)),
        w.fits(start),
        0 < w.channels <= 2048,
        block_countable(w.channels as int, frames as int),
        holds(*old(plan), x, frames * w.channels),
    ensures
        final(plan).wf(),
        extends(*old(plan), *final(plan)),
        out < final(plan).values().len(),
        final(plan).sizes()[out as int] == frames * w.channels,
        final(plan).values()[out as int] == refined(
            *w,
            start.values(),
            old(plan).values()[x as int],
            frames,
            eps,
        ),
{
    let c: u32 = w.channels as u32;
    proof {
        lemma_mul_comm(w.channels as int, frames as int);
        assert(frames * (4 * c) == 4 * (frames * c)) by (nonlinear_arith);
    }
    let wide: u32 = 4 * c;
    let n: u32 = frames * c;
    let normed: usize = plan.zeros(n as usize);
    plan.rms_norm(x, w.ffn_norm, normed, frames, c, eps);
    let up: usize = run_linear(plan, normed, w.ffn_up, w.ffn_up_bias, frames, wide, c);
    let active: usize = plan.zeros(frames as usize * wide as usize);
    plan.gelu_erf_f16(up, active, frames * wide);
    let down: usize = run_linear(plan, active, w.ffn_down, w.ffn_down_bias, frames, c, wide);
    let scaled: usize = plan.zeros(n as usize);
    plan.mul_f16_broadcast(down, w.ffn_gamma, scaled, n, c);
    run_sum(plan, x, scaled, n)
}

/// The rows after the first `n` blocks of a stage.
pub open spec fn blocks_output(blocks: Seq<DecoderBlock>, v: Seq<Term>, x: Term, frames: u32, eps: Scalar, n: nat) -> Term
    decreases n,
{
    if n == 0 {
        x
    } else {
        block_output(
            blocks[n - 1],
            v,
            blocks_output(blocks, v, x, frames, eps, (n - 1) as nat),
            frames,
            eps,
        )
    }
}

/// The rows a stage starts from: those before it, upsampled where it
/// upsamples.
#[verifier::opaque]
pub open spec fn stage_input(stage: DecoderStage, v: Seq<Term>, x: Term, frames: u32) -> Term {
    match stage.upsample {
        None => x,
        Some(u) => transpose_f16(
            conv_transpose1d_causal_f16(
                transpose_f16(x, frames, u.input_channels as u32),
                v[u.weight as int],
                v[u.bias as int],
                u.input_channels as u32,
                u.output_channels as u32,
                frames,
                u.kernel as u32,
                u.stride as u32,
            ),
            u.output_channels as u32,
            (frames * u.stride) as u32,
        ),
    }
}

/// How many frames there are behind the first `n` upsamplings.
pub open spec fn frames_after(ratios: Seq<usize>, frames: int, n: int) -> int
    decreases n,
{
    if n <= 0 {
        frames
    } else {
        frames_after(ratios, frames, n - 1) * ratios[n - 1]
    }
}

/// The rows after the first `n` stages.
pub open spec fn stages_output(w: VibeVoiceAcousticDecoder, v: Seq<Term>, x: Term, frames: int, n: nat) -> Term
    decreases n,
{
    if n == 0 {
        x
    } else {
        let stage = w.stages@[n - 1];
        let before = stages_output(w, v, x, frames, (n - 1) as nat);
        blocks_output(
            stage.blocks@,
            v,
            stage_input(stage, v, before, frames_after(w.ratios@, frames, n - 2) as u32),
            frames_after(w.ratios@, frames, n - 1) as u32,
            w.norm_eps,
            stage.blocks@.len(),
        )
    }
}

/// The samples that latents stand for.
pub open spec fn decoded(w: VibeVoiceAcousticDecoder, v: Seq<Term>, latents: Term, frames: int) -> Term {
    let stem = transpose_f16(
        convolved(
            w.stem,
            v,
            transpose_f16(latents, frames as u32, w.latent_dim as u32),
            frames as u32,
        ),
        2048,
        frames as u32,
    );
    let all = frames_after(w.ratios@, frames, 6) as u32;
    convolved(
        w.head,
        v,
        transpose_f16(stages_output(w, v, stem, frames, 7), all, 32),
        all,
    )
}

/// Every mixer reads the channels of its block.
pub open spec fn mixers_match(w: VibeVoiceAcousticDecoder, n: int) -> bool {
    forall|i: int, b: int|
        0 <= i < n && 0 <= b < w.stages@[i].blocks@.len() ==> (
        #[trigger] w.stages@[i].blocks@[b]).mixer.input_channels == width(i)
}

/// Why latents cannot be decoded, if they cannot.
pub open spec fn decode_fault(w: VibeVoiceAcousticDecoder, latents: Seq<u32>) -> Option<Seq<char>> {
    let len = latents.len() as int;
    if len == 0 || w.latent_dim == 0 || len % w.latent_dim as int != 0 {
        Some("VibeVoice decoder needs complete acoustic latent frames"@)
    } else if !all_finite(latents) {
        Some("VibeVoice decoder received a non-finite latent"@)
    } else if !mixers_match(w, 7) {
        Some("VibeVoice convolution input size mismatch"@)
    } else {
        None
    }
}

/// The numbers of the decoder go to the device, and everything it counts over
/// that many latents can be counted.
pub open spec fn decoder_countable(w: VibeVoiceAcousticDecoder, frames: int) -> bool {
    &&& w.stem.narrow()
    &&& w.head.narrow()
    &&& w.latent_dim * frames <= usize::MAX
    &&& forall|i: int|
        0 <= i < 7 ==> block_countable(width(i), #[trigger] frames_after(w.ratios@, frames, i))
    &&& forall|i: int, b: int|
        0 <= i < 7 && 0 <= b < w.stages@[i].blocks@.len() ==> keeps_channels(
            #[trigger] w.stages@[i].blocks@[b],
        )
    &&& forall|i: int| 0 <= i < 6 ==> 2 * #[trigger] w.ratios@[i] <= u32::MAX
}

/// Runs the upsampling of a stage. The result names the rows.
fn run_stage_input(
    plan: &mut Plan,
    stage: &DecoderStage,
    x: usize,
    frames: u32,
    out_frames: u32,
    Ghost(i): Ghost<int>,
    Ghost(ratios): Ghost<Seq<usize>>,
    Ghost(start): Ghost<Plan>,
) -> (out: usize)
    requires
        old(plan).wf(),
        extends(start, *old(plan)),
        0 <= i < 7,
        stage.fits(start, ratios, i),
        i == 0 ==> out_frames == frames,
        i > 0 ==> out_frames == frames * ratios[i - 1] && 2 * ratios[i - 1] <= u32::MAX,
        i > 0 ==> block_countable(width(i - 1), frames as int),
        block_countable(width(i), out_frames as int),
        x < old(plan).values().len(),
        old(plan).sizes()[x as int] == frames * (if i == 0 {
            width(0)
        } else {
            width(i - 1)
        }),
    ensures
        final(plan).wf(),
        extends(*old(plan), *final(plan)),
        out < final(plan).values().len(),
        final(plan).sizes()[out as int] == out_frames * width(i),
        final(plan).values()[out as int] == stage_input(
            *stage,
            start.values(),
            old(plan).values()[x as int],
            frames,
        ),
{
    reveal(stage_input);
    match &stage.upsample {
        None => x,
        Some(u) => {
            let wide: u32 = u.input_channels as u32;
            let narrow: u32 = u.output_channels as u32;
            proof {
                lemma_mul_comm(wide as int, frames as int);
                lemma_mul_comm(narrow as int, out_frames as int);
                assert(narrow * (frames * u.stride) == narrow * out_frames);
            }
            let turned: usize = run_transposed(plan, x, frames, wide);
            let up: usize = plan.zeros(narrow as usize * out_frames as usize);
            plan.conv_transpose1d_causal_f16(
                turned,
                u.weight,
                u.bias,
                up,
                wide,
                narrow,
                frames,
                u.kernel as u32,
                u.stride as u32,
            );
            run_transposed(plan, up, narrow, out_frames)
        },
    }
}

/// Runs the blocks of a stage. The result names the rows.
fn run_blocks(
    plan: &mut Plan,
    blocks: &Vec<DecoderBlock>,
    x: usize,
    channels: usize,
    frames: u32,
    eps: Scalar,
    Ghost(start): Ghost<Plan>,
) -> (outcome: Option<usize>)
    requires
        old(plan).wf(),
        extends(start, *old(plan)),
        0 < channels <= 2048,
        forall|b: int|
            0 <= b < blocks@.len() ==> (#[trigger] blocks@[b]).fits(start) && blocks@[b].channels
                == channels && keeps_channels(blocks@[b]),
        block_countable(channels as int, frames as int),
        x < old(plan).values().len(),
        old(plan).sizes()[x as int] == frames * channels,
    ensures
        final(plan).wf(),
        extends(*old(plan), *final(plan)),
        match outcome {
            None => exists|b: int|
                0 <= b < blocks@.len() && (#[trigger] blocks@[b]).mixer.input_channels != channels,
            Some(out) => {
                &&& forall|b: int|
                    0 <= b < blocks@.len() ==> (#[trigger] blocks@[b]).mixer.input_channels
                        == channels
                &&& out < final(plan).values().len()
                &&& final(plan).sizes()[out as int] == frames * channels
                &&& final(plan).values()[out as int] == blocks_output(
                    blocks@,
                    start.values(),
                    old(plan).values()[x as int],
                    frames,
                    eps,
                    blocks@.len(),
                )
            },
        },
{
    let ghost first = *plan;
    let mut rows: usize = x;
    for b in 0..blocks.len()
        invariant
            plan.wf(),
            extends(start, first),
            first == *old(plan),
            extends(first, *plan),
            0 < channels <= 2048,
            forall|j: int|
                0 <= j < blocks@.len() ==> (#[trigger] blocks@[j]).fits(start)
                    && blocks@[j].channels == channels && keeps_channels(blocks@[j]),
            block_countable(channels as int, frames as int),
            rows < plan.values().len(),
            plan.sizes()[rows as int] == frames * channels,
            forall|j: int|
                0 <= j < b ==> (#[trigger] blocks@[j]).mixer.input_channels == channels,
            plan.values()[rows as int] == blocks_output(
                blocks@,
                start.values(),
                first.values()[x as int],
                frames,
                eps,
                b as nat,
            ),
    {
        let block = &blocks[b];
        assert(blocks@[b as int].fits(start));
        if block.mixer.input_channels != channels {
            return None;
        }
        reveal(block_output);
        let half: usize = run_mixed(plan, block, rows, frames, eps, Ghost(start));
        rows = run_refined(plan, block, half, frames, eps, Ghost(start));
    }
    Some(rows)
}

impl VibeVoiceAcousticDecoder {
    /// Runs the stages. The result names the rows that come out and how many
    /// there are.
    fn run_stages(&self, plan: &mut Plan, x: usize, frames: u32, Ghost(start): Ghost<Plan>) -> (outcome:
        Option<(usize, u32)>)
        requires
            old(plan).wf(),
            extends(start, *old(plan)),
            self.fits(start),
            frames > 0,
            decoder_countable(*self, frames as int),
            x < old(plan).values().len(),
            old(plan).sizes()[x as int] == frames * 2048,
        ensures
            final(plan).wf(),
            extends(*old(plan), *final(plan)),
            match outcome {
                None => !mixers_match(*self, 7),
                Some((rows, n)) => {
                    &&& mixers_match(*self, 7)
                    &&& n == frames_after(self.ratios@, frames as int, 6)
                    &&& rows < final(plan).values().len()
                    &&& final(plan).sizes()[rows as int] == n * 32
                    &&& final(plan).values()[rows as int] == stages_output(
                        *self,
                        start.values(),
                        old(plan).values()[x as int],
                        frames as int,
                        7,
                    )
                },
            },
    {
        let ghost first = *plan;
        let mut rows: usize = x;
        let mut n: u32 = frames;
        for i in 0..7usize
            invariant
                plan.wf(),
                extends(start, first),
                first == *old(plan),
                extends(first, *plan),
                self.fits(start),
                frames > 0,
                decoder_countable(*self, frames as int),
                rows < plan.values().len(),
                n == frames_after(self.ratios@, frames as int, i - 1),
                plan.sizes()[rows as int] == n * (if i == 0 {
                    width(0)
                } else {
                    width(i - 1)
                }),
                mixers_match(*self, i as int),
                plan.values()[rows as int] == stages_output(
                    *self,
                    start.values(),
                    first.values()[x as int],
                    frames as int,
                    i as nat,
                ),
        {
            let stage = &self.stages[i];
            let channels: usize = stage_width(i);
            proof {
                assert(self.stages@[i as int].fits(start, self.ratios@, i as int));
                assert(block_countable(
                    width(i as int),
                    frames_after(self.ratios@, frames as int, i as int),
                ));
                if i > 0 {
                    assert(block_countable(
                        width(i - 1),
                        frames_after(self.ratios@, frames as int, i - 1),
                    ));
                    assert(2 * self.ratios@[i - 1] <= u32::MAX);
                    lemma_fits_u32(
                        width(i as int),
                        frames_after(self.ratios@, frames as int, i as int),
                    );
                }
            }
            let wide: u32 = if i == 0 {
                n
            } else {
                (n as u64 * self.ratios[i - 1] as u64) as u32
            };
            let ghost before = *plan;
            let input: usize = run_stage_input(
                plan,
                stage,
                rows,
                n,
                wide,
                Ghost(i as int),
                Ghost(self.ratios@),
                Ghost(start),
            );
            assert forall|b: int| 0 <= b < stage.blocks@.len() implies (
            #[trigger] stage.blocks@[b]).fits(start) && stage.blocks@[b].channels == channels
                && keeps_channels(stage.blocks@[b]) by {
                assert(keeps_channels(self.stages@[i as int].blocks@[b]));
            }
            match run_blocks(
                plan,
                &stage.blocks,
                input,
                channels,
                wide,
                self.norm_eps,
                Ghost(start),
            ) {
                None => {
                    proof {
                        let b = choose|b: int|
                            0 <= b < stage.blocks@.len() && (
                            #[trigger] stage.blocks@[b]).mixer.input_channels != channels;
                        assert(self.stages@[i as int].blocks@[b].mixer.input_channels != width(
                            i as int,
                        ));
                    }
                    return None;
                },
                Some(out) => {
                    rows = out;
                    n = wide;
                },
            }
        }
        Some((rows, n))
    }

    /// Decodes latents, one row per frame, given by their bits. The next buffer
    /// is supplied with them; the result names the samples.
    pub fn decode(&self, plan: &mut Plan, latents: &[u32]) -> (outcome: Result<
        usize,
        String,
    >)
        requires
            old(plan).wf(),
            self.fits(*old(plan)),
            self.latent_dim > 0 && latents@.len() > 0 ==> decoder_countable(
                *self,
                latents@.len() as int / self.latent_dim as int,
            ) || latents@.len() < self.latent_dim,
        ensures
            final(plan).wf(),
            extends(*old(plan), *final(plan)),
            ({
                let frames = latents@.len() as int / self.latent_dim as int;
                match outcome {
                    Err(message) => decode_fault(*self, latents@) == Some(message@),
                    Ok(samples) => {
                        &&& decode_fault(*self, latents@) is None
                        &&& samples < final(plan).values().len()
                        &&& final(plan).sizes()[samples as int] == frames_after(
                            self.ratios@,
                            frames,
                            6,
                        )
                        &&& final(plan).values()[samples as int] == decoded(
                            *self,
                            old(plan).values(),
                            Term::Given(old(plan).steps().len()),
                            frames,
                        )
                    },
                }
            }),
    {
        let ghost start = *plan;
        let len: usize = latents.len();
        if len == 0 || self.latent_dim == 0 || len % self.latent_dim != 0 {
            return Err("VibeVoice decoder needs complete acoustic latent frames".to_owned());
        }
        if !are_finite(latents) {
            return Err("VibeVoice decoder received a non-finite latent".to_owned());
        }
        proof {
            let d = self.latent_dim as int;
            let q = len as int / d;
            vstd::arithmetic::div_mod::lemma_fundamental_div_mod(len as int, d);
            assert(len == q * d) by (nonlinear_arith)
                requires
                    len == d * q + 0,
            ;
            assert(q > 0) by (nonlinear_arith)
                requires
                    len == q * d,
                    len > 0,
                    d > 0,
            ;
            assert(len >= d) by (nonlinear_arith)
                requires
                    len == q * d,
                    q >= 1,
                    d > 0,
            ;
            assert(block_countable(width(0), frames_after(self.ratios@, q, 0)));
            assert(block_countable(width(6), frames_after(self.ratios@, q, 6)));
            lemma_mul_comm(q, d);
        }
        let frames: u32 = (len / self.latent_dim) as u32;
        let dim: u32 = self.latent_dim as u32;
        let rows: usize = plan.given(len);
        let channels: usize = run_transposed(plan, rows, frames, dim);
        let stem: usize = run_conv(plan, &self.stem, channels, frames, Ghost(start));
        let rows: usize = run_transposed(plan, stem, 2048, frames);
        match self.run_stages(plan, rows, frames, Ghost(start)) {
            None => Err("VibeVoice convolution input size mismatch".to_owned()),
            Some((out, n)) => {
                let turned: usize = run_transposed(plan, out, n, 32);
                let samples: usize = run_conv(plan, &self.head, turned, n, Ghost(start));
                Ok(samples)
            },
        }
    }
}

proof fn lemma_fits_u32(channels: int, frames: int)
    requires
        block_countable(channels, frames),
        channels >= 1,
    ensures
        0 < frames <= u32::MAX,
{
    assert(frames <= channels * frames) by (nonlinear_arith)
        requires
            channels >= 1,
            frames > 0,
    ;
}

/// The samples of a decoder are as many as its latents times the product of
/// its ratios.
pub proof fn law_samples_multiply_the_latents(ratios: Seq<usize>, frames: int, n: int)
    requires
        0 <= n <= ratios.len(),
    ensures
        frames_after(ratios, frames, n) == frames * ratio_product(
            ratios.take(n),
        ),
    decreases n,
{
    if n > 0 {
        law_samples_multiply_the_latents(ratios, frames, n - 1);
        assert(ratios.take(n).drop_last() =~= ratios.take(n - 1));
        let p = ratio_product(ratios.take(n - 1)) as int;
        let r = ratios[n - 1] as int;
        assert((frames * p) * r == frames * (p * r)) by (nonlinear_arith);
        assert(ratio_product(ratios.take(n)) == p * r);
    } else {
        assert(ratios.take(0) =~= Seq::empty());
        assert(frames * 1 == frames) by (nonlinear_arith);
    }
}

} // verus!
