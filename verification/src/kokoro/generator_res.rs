//! Residual blocks of the generator: style normalisation and snake activation.
use vstd::prelude::*;
use vstd::string::*;
use crate::arith::lemma_mul_comm;
use crate::device::{Plan, Term, extends, holds};
use crate::device::compound::{ConvShape, conv1d, run_conv1d, run_sum, run_transposed};
use crate::device::value::{add_f16, snake_f16, transpose_f16};
use crate::kokoro::adain::{AdaIn, style_tensors, styled};
use crate::kokoro::checkpoint::{
    Conv, conv_tensors, fixed, fixed_complaint, full_name, thrice, thrice_fixed, to_full_name,
};
use crate::text::{decimal, to_decimal};
use crate::weights::{Loader, Tensor, lemma_stored3, lemma_stores_split, stores};

verus! {

/// One stage, as buffers.
#[derive(Clone, Copy, Debug, PartialEq, Eq, Structural)]
pub struct Stage {
    pub conv1: Conv,
    pub conv2: Conv,
    pub norm1: AdaIn,
    pub norm2: AdaIn,
    pub alpha1: usize,
    pub alpha2: usize,
}

/// Three stages with growing dilation, as buffers.
#[derive(Clone, Copy, Debug, PartialEq, Eq, Structural)]
pub struct KokoroGeneratorResBlock {
    pub first: Stage,
    pub second: Stage,
    pub third: Stage,
    pub channels: u32,
    pub kernel: u32,
}

/// The tensors of a convolution of a block.
pub open spec fn res_conv(prefix: Seq<char>, channels: usize, kernel: usize) -> Seq<Tensor> {
    conv_tensors(
        "decoder"@,
        prefix,
        thrice_fixed("invalid Kokoro generator convolution "@ + prefix),
        channels,
        channels,
        kernel,
        channels,
    )
}

/// The tensors of a style map of a block.
pub open spec fn res_style(prefix: Seq<char>, channels: usize) -> Seq<Tensor> {
    style_tensors(
        "decoder"@,
        prefix,
        "invalid Kokoro generator AdaIN "@ + prefix,
        channels,
    )
}

/// The activation parameters of a block.
pub open spec fn res_alpha(name: Seq<char>, channels: usize) -> Tensor {
    fixed(
        full_name("decoder"@, name),
        seq![1, channels, 1],
        "invalid Kokoro generator alpha "@ + name,
    )
}

/// The tensors of stage `index` of a block.
pub open spec fn stage_tensors(prefix: Seq<char>, index: nat, channels: usize, kernel: usize) -> Seq<
    Tensor,
> {
    let i = decimal(index);
    res_conv(prefix + ".convs1."@ + i, channels, kernel) + res_conv(
        prefix + ".convs2."@ + i,
        channels,
        kernel,
    ) + res_style(prefix + ".adain1."@ + i, channels) + res_style(
        prefix + ".adain2."@ + i,
        channels,
    ) + seq![
        res_alpha(prefix + ".alpha1."@ + i, channels),
        res_alpha(prefix + ".alpha2."@ + i, channels),
    ]
}

/// The tensors of a block.
#[verifier::opaque]
pub open spec fn res_tensors(prefix: Seq<char>, channels: usize, kernel: usize) -> Seq<Tensor> {
    stage_tensors(prefix, 0, channels, kernel) + stage_tensors(prefix, 1, channels, kernel)
        + stage_tensors(prefix, 2, channels, kernel)
}

/// The weights of a block can be counted.
pub open spec fn res_widths_fit(channels: usize, kernel: usize) -> bool {
    &&& channels * channels <= usize::MAX
    &&& channels * channels * kernel <= usize::MAX
    &&& 2 * channels * 128 <= usize::MAX
}

fn load_conv(loader: &mut Loader, prefix: &str, channels: usize, kernel: usize) -> (conv: Conv)
    requires
        old(loader).wf(),
        res_widths_fit(channels, kernel),
    ensures
        final(loader).wf(),
        conv == Conv::at(old(loader).tensors().len() as int),
        final(loader).tensors() == old(loader).tensors() + res_conv(prefix@, channels, kernel),
        final(loader).tensors().len() == old(loader).tensors().len() + 3,
{
    let message = "invalid Kokoro generator convolution ".to_owned().concat(prefix);
    Conv::load(
        loader,
        "decoder",
        prefix,
        thrice(message.as_str()),
        channels,
        channels,
        kernel,
        channels,
    )
}

fn load_style(loader: &mut Loader, prefix: &str, channels: usize) -> (map: AdaIn)
    requires
        old(loader).wf(),
        2 * channels * 128 <= usize::MAX,
    ensures
        final(loader).wf(),
        map == AdaIn::at(old(loader).tensors().len() as int),
        final(loader).tensors() == old(loader).tensors() + res_style(prefix@, channels),
        final(loader).tensors().len() == old(loader).tensors().len() + 2,
{
    let message = "invalid Kokoro generator AdaIN ".to_owned().concat(prefix);
    AdaIn::load(loader, "decoder", prefix, message.as_str(), channels)
}

fn load_alpha(loader: &mut Loader, name: &str, channels: usize) -> (buffer: usize)
    requires
        old(loader).wf(),
    ensures
        final(loader).wf(),
        buffer == old(loader).tensors().len(),
        final(loader).tensors() == old(loader).tensors().push(res_alpha(name@, channels)),
{
    let message = "invalid Kokoro generator alpha ".to_owned().concat(name);
    loader.cube(to_full_name("decoder", name), 1, channels, 1, fixed_complaint(message.as_str()))
}

impl Stage {
    /// The stage whose first tensor is buffer `base`.
    pub open spec fn at(base: int) -> Self {
        Stage {
            conv1: Conv::at(base),
            conv2: Conv::at(base + 3),
            norm1: AdaIn::at(base + 6),
            norm2: AdaIn::at(base + 8),
            alpha1: (base + 10) as usize,
            alpha2: (base + 11) as usize,
        }
    }

    /// The weights exist at their full size.
    pub open spec fn fits(self, plan: Plan, channels: int, kernel: int) -> bool {
        &&& holds(plan, self.conv1.weight, channels * channels * kernel)
        &&& holds(plan, self.conv1.bias, channels)
        &&& holds(plan, self.conv2.weight, channels * channels * kernel)
        &&& holds(plan, self.conv2.bias, channels)
        &&& self.norm1.fits(plan, channels)
        &&& self.norm2.fits(plan, channels)
        &&& holds(plan, self.alpha1, channels)
        &&& holds(plan, self.alpha2, channels)
    }

    /// Requires the tensors of a stage.
    fn load(loader: &mut Loader, prefix: &str, index: u64, channels: usize, kernel: usize) -> (stage:
        Self)
        requires
            old(loader).wf(),
            res_widths_fit(channels, kernel),
        ensures
            final(loader).wf(),
            stage == Self::at(old(loader).tensors().len() as int),
            final(loader).tensors() == old(loader).tensors() + stage_tensors(
                prefix@,
                index as nat,
                channels,
                kernel,
            ),
            final(loader).tensors().len() == old(loader).tensors().len() + 12,
    {
        let ghost before = loader.tensors();
        let i = to_decimal(index);
        let conv1 = load_conv(
            loader,
            prefix.to_owned().concat(".convs1.").concat(i.as_str()).as_str(),
            channels,
            kernel,
        );
        let conv2 = load_conv(
            loader,
            prefix.to_owned().concat(".convs2.").concat(i.as_str()).as_str(),
            channels,
            kernel,
        );
        let norm1 = load_style(
            loader,
            prefix.to_owned().concat(".adain1.").concat(i.as_str()).as_str(),
            channels,
        );
        let norm2 = load_style(
            loader,
            prefix.to_owned().concat(".adain2.").concat(i.as_str()).as_str(),
            channels,
        );
        let alpha1: usize = load_alpha(
            loader,
            prefix.to_owned().concat(".alpha1.").concat(i.as_str()).as_str(),
            channels,
        );
        let alpha2: usize = load_alpha(
            loader,
            prefix.to_owned().concat(".alpha2.").concat(i.as_str()).as_str(),
            channels,
        );
        assert(loader.tensors() =~= before + stage_tensors(
            prefix@,
            index as nat,
            channels,
            kernel,
        ));
        Stage { conv1, conv2, norm1, norm2, alpha1, alpha2 }
    }
}

/// A dilated convolution that keeps the frames.
pub open spec fn dilated(channels: u32, kernel: u32, dilation: u32) -> ConvShape {
    ConvShape {
        input: channels,
        output: channels,
        kernel,
        stride: 1,
        padding: ((kernel * dilation - dilation) / 2) as u32,
        dilation,
    }
}

/// One half of a stage: normalisation, activation and convolution.
pub open spec fn half_output(
    norm: AdaIn,
    alpha: usize,
    conv: Conv,
    v: Seq<Term>,
    x: Term,
    style: Term,
    shape: ConvShape,
    frames: u32,
) -> Term {
    conv1d(
        snake_f16(
            styled(norm, v, x, style, shape.input, frames),
            v[alpha as int],
            shape.input,
            frames,
        ),
        v[conv.weight as int],
        v[conv.bias as int],
        shape,
        frames,
        frames,
    )
}

/// The channels after a stage.
#[verifier::opaque]
pub open spec fn stage_output(
    w: Stage,
    v: Seq<Term>,
    x: Term,
    style: Term,
    channels: u32,
    kernel: u32,
    dilation: u32,
    frames: u32,
) -> Term {
    let first = half_output(
        w.norm1,
        w.alpha1,
        w.conv1,
        v,
        x,
        style,
        dilated(channels, kernel, dilation),
        frames,
    );
    let second = half_output(
        w.norm2,
        w.alpha2,
        w.conv2,
        v,
        first,
        style,
        dilated(channels, kernel, 1),
        frames,
    );
    add_f16(x, second, (channels * frames) as u32)
}

/// The channels after a block.
pub open spec fn res_output(w: KokoroGeneratorResBlock, v: Seq<Term>, x: Term, style: Term, frames: u32) -> Term {
    let a = stage_output(w.first, v, x, style, w.channels, w.kernel, 1, frames);
    let b = stage_output(w.second, v, a, style, w.channels, w.kernel, 3, frames);
    stage_output(w.third, v, b, style, w.channels, w.kernel, 5, frames)
}

/// Runs one half of a stage. The result names a fresh buffer.
fn run_half(
    plan: &mut Plan,
    norm: &AdaIn,
    alpha: usize,
    conv: &Conv,
    x: usize,
    style: usize,
    shape: ConvShape,
    frames: u32,
    Ghost(start): Ghost<Plan>,
) -> (out: usize)
    requires
        old(plan).wf(),
        extends(start, *old(plan)),
        norm.fits(start, shape.input as int),
        holds(start, alpha, shape.input as int),
        holds(start, conv.weight, shape.output * shape.input * shape.kernel),
        holds(start, conv.bias, shape.output as int),
        shape.output * frames <= usize::MAX,
        holds(*old(plan), x, shape.input * frames),
        holds(*old(plan), style, 128),
    ensures
        final(plan).wf(),
        extends(*old(plan), *final(plan)),
        out < final(plan).values().len(),
        final(plan).sizes()[out as int] == shape.output * frames,
        final(plan).values()[out as int] == half_output(
            *norm,
            alpha,
            *conv,
            start.values(),
            old(plan).values()[x as int],
            old(plan).values()[style as int],
            shape,
            frames,
        ),
{
    let normed: usize = norm.forward(plan, x, style, shape.input, frames, Ghost(start));
    let activated: usize = plan.zeros(shape.input as usize * frames as usize);
    plan.snake_f16(normed, alpha, activated, shape.input, frames);
    run_conv1d(plan, activated, conv.weight, conv.bias, shape, frames, frames)
}

impl Stage {
    /// Runs the stage. The result names a fresh buffer.
    fn forward(
        &self,
        plan: &mut Plan,
        x: usize,
        style: usize,
        channels: u32,
        kernel: u32,
        dilation: u32,
        frames: u32,
        Ghost(start): Ghost<Plan>,
    ) -> (out: usize)
        requires
            old(plan).wf(),
            extends(start, *old(plan)),
            self.fits(start, channels as int, kernel as int),
            kernel > 0,
            dilation > 0,
            kernel * dilation <= u32::MAX,
            channels * frames <= u32::MAX,
            channels * frames <= usize::MAX,
            holds(*old(plan), x, channels * frames),
            holds(*old(plan), style, 128),
        ensures
            final(plan).wf(),
            extends(*old(plan), *final(plan)),
            out < final(plan).values().len(),
            final(plan).sizes()[out as int] == channels * frames,
            final(plan).values()[out as int] == stage_output(
                *self,
                start.values(),
                old(plan).values()[x as int],
                old(plan).values()[style as int],
                channels,
                kernel,
                dilation,
                frames,
            ),
    {
        reveal(stage_output);
        proof {
            assert(dilation <= kernel * dilation) by (nonlinear_arith)
                requires
                    kernel >= 1,
                    dilation >= 0,
            ;
            assert(kernel * 1 == kernel);
        }
        let wide = ConvShape {
            input: channels,
            output: channels,
            kernel,
            stride: 1,
            padding: (kernel * dilation - dilation) / 2,
            dilation,
        };
        let tight = ConvShape {
            input: channels,
            output: channels,
            kernel,
            stride: 1,
            padding: (kernel - 1) / 2,
            dilation: 1,
        };
        let first: usize = run_half(
            plan,
            &self.norm1,
            self.alpha1,
            &self.conv1,
            x,
            style,
            wide,
            frames,
            Ghost(start),
        );
        let second: usize = run_half(
            plan,
            &self.norm2,
            self.alpha2,
            &self.conv2,
            first,
            style,
            tight,
            frames,
            Ghost(start),
        );
        run_sum(plan, x, second, channels * frames)
    }
}

impl KokoroGeneratorResBlock {
    /// The block whose first tensor is buffer `base`.
    pub open spec fn at(base: int, channels: u32, kernel: u32) -> Self {
        KokoroGeneratorResBlock {
            first: Stage::at(base),
            second: Stage::at(base + 12),
            third: Stage::at(base + 24),
            channels,
            kernel,
        }
    }

    /// The weights exist at their full size.
    pub open spec fn fits(self, plan: Plan) -> bool {
        &&& self.first.fits(plan, self.channels as int, self.kernel as int)
        &&& self.second.fits(plan, self.channels as int, self.kernel as int)
        &&& self.third.fits(plan, self.channels as int, self.kernel as int)
    }

    /// Requires the tensors of a block.
    pub fn load(loader: &mut Loader, prefix: &str, channels: u32, kernel: u32) -> (block: Self)
        requires
            old(loader).wf(),
            res_widths_fit(channels as usize, kernel as usize),
        ensures
            final(loader).wf(),
            block == Self::at(old(loader).tensors().len() as int, channels, kernel),
            final(loader).tensors() == old(loader).tensors() + res_tensors(
                prefix@,
                channels as usize,
                kernel as usize,
            ),
            final(loader).tensors().len() == old(loader).tensors().len() + 36,
    {
        let ghost before = loader.tensors();
        let first = Stage::load(loader, prefix, 0, channels as usize, kernel as usize);
        let second = Stage::load(loader, prefix, 1, channels as usize, kernel as usize);
        let third = Stage::load(loader, prefix, 2, channels as usize, kernel as usize);
        reveal(res_tensors);
        assert(loader.tensors() =~= before + res_tensors(
            prefix@,
            channels as usize,
            kernel as usize,
        ));
        KokoroGeneratorResBlock { first, second, third, channels, kernel }
    }

    /// Everything the block counts over `frames` frames can be counted.
    pub open spec fn countable(self, frames: int) -> bool {
        &&& self.kernel > 0
        &&& self.kernel * 5 <= u32::MAX
        &&& 0 <= frames <= u32::MAX
        &&& self.channels * frames <= u32::MAX
        &&& self.channels * frames <= usize::MAX
    }

    /// Runs the block on channel-first data. The result names a fresh buffer.
    pub(crate) fn forward_device(
        &self,
        plan: &mut Plan,
        x: usize,
        frames: u32,
        style: usize,
        Ghost(start): Ghost<Plan>,
    ) -> (out: usize)
        requires
            old(plan).wf(),
            extends(start, *old(plan)),
            self.fits(start),
            self.countable(frames as int),
            holds(*old(plan), x, self.channels * frames),
            holds(*old(plan), style, 128),
        ensures
            final(plan).wf(),
            extends(*old(plan), *final(plan)),
            out < final(plan).values().len(),
            final(plan).sizes()[out as int] == self.channels * frames,
            final(plan).values()[out as int] == res_output(
                *self,
                start.values(),
                old(plan).values()[x as int],
                old(plan).values()[style as int],
                frames,
            ),
    {
        let a: usize = self.first.forward(
            plan,
            x,
            style,
            self.channels,
            self.kernel,
            1,
            frames,
            Ghost(start),
        );
        let b: usize = self.second.forward(
            plan,
            a,
            style,
            self.channels,
            self.kernel,
            3,
            frames,
            Ghost(start),
        );
        self.third.forward(plan, b, style, self.channels, self.kernel, 5, frames, Ghost(start))
    }

    /// Runs the block on the `frames` rows of `input`. The result names the
    /// rows that come out.
    pub fn forward(&self, plan: &mut Plan, input: usize, frames: usize, style: usize) -> (outcome:
        Result<usize, String>)
        requires
            old(plan).wf(),
            self.fits(*old(plan)),
            self.countable(frames as int),
            input < old(plan).values().len(),
            style < old(plan).values().len(),
        ensures
            final(plan).wf(),
            outcome is Ok <==> old(plan).sizes()[input as int] == frames * self.channels && old(
                plan,
            ).sizes()[style as int] == 128,
            match outcome {
                Err(message) => message@ == "invalid Kokoro generator residual input"@ && *final(
                    plan) == *old(plan),
                Ok(rows) => {
                    &&& extends(*old(plan), *final(plan))
                    &&& rows < final(plan).values().len()
                    &&& final(plan).sizes()[rows as int] == frames * self.channels
                    &&& final(plan).values()[rows as int] == transpose_f16(
                        res_output(
                            *self,
                            old(plan).values(),
                            transpose_f16(
                                old(plan).values()[input as int],
                                frames as u32,
                                self.channels,
                            ),
                            old(plan).values()[style as int],
                            frames as u32,
                        ),
                        self.channels,
                        frames as u32,
                    )
                },
            },
    {
        proof {
            lemma_mul_comm(frames as int, self.channels as int);
        }
        if plan.size(input) != frames * self.channels as usize || plan.size(style) != 128 {
            return Err("invalid Kokoro generator residual input".to_owned());
        }
        let ghost start = *plan;
        let t: u32 = frames as u32;
        let channels: usize = run_transposed(plan, input, t, self.channels);
        let out: usize = self.forward_device(plan, channels, t, style, Ghost(start));
        Ok(run_transposed(plan, out, self.channels, t))
    }
}

impl Stage {
    /// Loaded weights exist at their full size.
    proof fn lemma_loaded(
        plan: Plan,
        base: int,
        prefix: Seq<char>,
        index: nat,
        channels: usize,
        kernel: usize,
    )
        requires
            res_widths_fit(channels, kernel),
            stores(plan, base, stage_tensors(prefix, index, channels, kernel)),
        ensures
            Self::at(base).fits(plan, channels as int, kernel as int),
    {
        let i = decimal(index);
        let c1 = prefix + ".convs1."@ + i;
        let c2 = prefix + ".convs2."@ + i;
        let n1 = prefix + ".adain1."@ + i;
        let n2 = prefix + ".adain2."@ + i;
        let t0 = res_conv(c1, channels, kernel);
        let p1 = res_conv(c2, channels, kernel);
        let p2 = res_style(n1, channels);
        let p3 = res_style(n2, channels);
        let p4 = seq![
            res_alpha(prefix + ".alpha1."@ + i, channels),
            res_alpha(prefix + ".alpha2."@ + i, channels),
        ];
        let t1 = t0 + p1;
        let t2 = t1 + p2;
        let t3 = t2 + p3;
        lemma_stores_split(plan, base, t3, p4);
        lemma_stores_split(plan, base, t2, p3);
        lemma_stores_split(plan, base, t1, p2);
        lemma_stores_split(plan, base, t0, p1);
        let f1 = thrice_fixed("invalid Kokoro generator convolution "@ + c1);
        let f2 = thrice_fixed("invalid Kokoro generator convolution "@ + c2);
        let d = "decoder"@;
        Conv::law_loaded_weights_fit(
            plan,
            base,
            d,
            c1,
            f1,
            channels,
            channels,
            kernel,
            channels,
        );
        Conv::law_loaded_weights_fit(
            plan,
            base + 3,
            d,
            c2,
            f2,
            channels,
            channels,
            kernel,
            channels,
        );
        let m1 = "invalid Kokoro generator AdaIN "@ + n1;
        let m2 = "invalid Kokoro generator AdaIN "@ + n2;
        AdaIn::law_loaded_weights_fit(plan, base + 6, d, n1, m1, channels);
        AdaIn::law_loaded_weights_fit(plan, base + 8, d, n2, m2, channels);
        lemma_stored3(plan, base + 10, p4, 0, 1, channels, 1);
        lemma_stored3(plan, base + 10, p4, 1, 1, channels, 1);
        assert(1 * channels * 1 == channels) by (nonlinear_arith);
    }
}

impl KokoroGeneratorResBlock {
    /// Loaded weights exist at their full size.
    pub proof fn law_loaded_weights_fit(
        plan: Plan,
        base: int,
        prefix: Seq<char>,
        channels: u32,
        kernel: u32,
    )
        requires
            res_widths_fit(channels as usize, kernel as usize),
            stores(plan, base, res_tensors(prefix, channels as usize, kernel as usize)),
        ensures
            Self::at(base, channels, kernel).fits(plan),
    {
        reveal(res_tensors);
        let c = channels as usize;
        let k = kernel as usize;
        let a = stage_tensors(prefix, 0, c, k);
        let b = stage_tensors(prefix, 1, c, k);
        let d = stage_tensors(prefix, 2, c, k);
        lemma_stores_split(plan, base, a + b, d);
        lemma_stores_split(plan, base, a, b);
        Stage::lemma_loaded(plan, base, prefix, 0, c, k);
        Stage::lemma_loaded(plan, base + 12, prefix, 1, c, k);
        Stage::lemma_loaded(plan, base + 24, prefix, 2, c, k);
    }

    /// A block has as many tensors as three stages.
    pub(crate) proof fn lemma_count(prefix: Seq<char>, channels: usize, kernel: usize)
        ensures
            res_tensors(prefix, channels, kernel).len() == 36,
    {
        reveal(res_tensors);
    }
}

} // verus!
