//! Residual blocks whose normalisation follows a style.
use vstd::prelude::*;
use vstd::string::*;
use crate::arith::lemma_mul_comm;
use crate::device::{EPS_1E5, Plan, Scalar, Term, extends, holds};
use crate::device::compound::{
    ConvShape, conv1d, run_conv1d, run_leaky, run_scaled, run_sum, run_transposed,
};
use crate::device::value::{
    add_f16, conv_transpose1d_depthwise_f16, instance_norm_affine_f16, leaky_relu_f16,
    repeat_interleave_f16, scale_f16, style_affine_beta, style_affine_gamma, transpose_f16,
};
use crate::kokoro::checkpoint::{
    Conv, conv_tensors, fixed, fixed_complaint, full_name, kokoro_fixed, load_rows, row_tensors,
    to_full_name,
};
use crate::kokoro::text::SLOPE_0_2;
use crate::weights::{
    Absence, Complaint, Fault, Loader, Tensor, lemma_stored1, lemma_stored2, lemma_stored3,
    lemma_stores_split, stores,
};

verus! {

/// One over the square root of two in single precision.
pub const FRAC_1_SQRT_2: u32 = 0x3f35_04f3;

/// The map from a style to scales and shifts, as buffers.
#[derive(Clone, Copy, Debug, PartialEq, Eq, Structural)]
pub struct AdaIn {
    pub weight: usize,
    pub bias: usize,
}

/// The tensors of a style map over `channels` channels.
pub open spec fn style_tensors(group: Seq<char>, prefix: Seq<char>, message: Seq<char>, channels: usize) -> Seq<
    Tensor,
> {
    let twice = (2 * channels) as usize;
    seq![
        fixed(full_name(group, prefix + ".fc.weight"@), seq![twice, 128], message).before(1),
        fixed(full_name(group, prefix + ".fc.bias"@), seq![twice], message),
    ]
}

impl AdaIn {
    /// The map whose first tensor is buffer `base`.
    pub open spec fn at(base: int) -> Self {
        AdaIn { weight: base as usize, bias: (base + 1) as usize }
    }

    /// The weights exist at their full size.
    pub open spec fn fits(self, plan: Plan, channels: int) -> bool {
        &&& holds(plan, self.weight, 2 * channels * 128)
        &&& holds(plan, self.bias, 2 * channels)
    }

    /// Requires the tensors of a style map.
    pub fn load(loader: &mut Loader, group: &str, prefix: &str, message: &str, channels: usize) -> (map:
        Self)
        requires
            old(loader).wf(),
            2 * channels * 128 <= usize::MAX,
        ensures
            final(loader).wf(),
            map == Self::at(old(loader).tensors().len() as int),
            final(loader).tensors() == old(loader).tensors() + style_tensors(
                group@,
                prefix@,
                message@,
                channels,
            ),
            final(loader).tensors().len() == old(loader).tensors().len() + 2,
    {
        let ghost before = loader.tensors();
        let weight: usize = loader.matrix(
            to_full_name(group, prefix.to_owned().concat(".fc.weight").as_str()),
            2 * channels,
            128,
            fixed_complaint(message).before(1),
        );
        let bias: usize = loader.vector(
            to_full_name(group, prefix.to_owned().concat(".fc.bias").as_str()),
            2 * channels,
            fixed_complaint(message),
        );
        assert(loader.tensors() =~= before + style_tensors(group@, prefix@, message@, channels));
        AdaIn { weight, bias }
    }
}

/// Channels normalised, with scale and shift from a style.
pub open spec fn styled(w: AdaIn, v: Seq<Term>, x: Term, style: Term, channels: u32, frames: u32) -> Term {
    let weight = v[w.weight as int];
    let bias = v[w.bias as int];
    instance_norm_affine_f16(
        x,
        style_affine_gamma(weight, bias, style, channels, 128),
        style_affine_beta(weight, bias, style, channels, 128),
        channels,
        frames,
        Scalar::Single(EPS_1E5),
    )
}

impl AdaIn {
    /// Normalises channels by a style. The result names a fresh buffer.
    pub(crate) fn forward(
        &self,
        plan: &mut Plan,
        x: usize,
        style: usize,
        channels: u32,
        frames: u32,
        Ghost(start): Ghost<Plan>,
    ) -> (out: usize)
        requires
            old(plan).wf(),
            extends(start, *old(plan)),
            self.fits(start, channels as int),
            holds(*old(plan), x, channels * frames),
            holds(*old(plan), style, 128),
        ensures
            final(plan).wf(),
            extends(*old(plan), *final(plan)),
            out == old(plan).values().len() + 2,
            final(plan).values().len() == old(plan).values().len() + 3,
            final(plan).sizes()[out as int] == channels * frames,
            final(plan).values()[out as int] == styled(
                *self,
                start.values(),
                old(plan).values()[x as int],
                old(plan).values()[style as int],
                channels,
                frames,
            ),
    {
        let gamma: usize = plan.zeros(channels as usize);
        let beta: usize = plan.zeros(channels as usize);
        plan.style_affine(self.weight, self.bias, style, gamma, beta, channels, 128);
        let out: usize = plan.zeros(channels as usize * frames as usize);
        plan.instance_norm_affine_f16(
            x,
            gamma,
            beta,
            out,
            channels,
            frames,
            Scalar::Single(EPS_1E5),
        );
        out
    }
}

/// A residual block, as buffers.
#[derive(Clone, Copy, Debug, PartialEq, Eq, Structural)]
pub struct KokoroAdaInResBlock {
    /// The first of the two buffers of the shortcut's rows, where the widths
    /// differ.
    pub shortcut: usize,
    /// The pooling convolution, where the block doubles the frames.
    pub pool: Conv,
    pub conv1: Conv,
    pub conv2: Conv,
    pub norm1: AdaIn,
    pub norm2: AdaIn,
    pub input: u32,
    pub output: u32,
    pub upsample: bool,
}

/// The complaints about a convolution of a block.
pub open spec fn block_conv_faults(prefix: Seq<char>) -> (Fault, Fault, Fault) {
    (
        kokoro_fixed("invalid "@ + prefix + ".weight_g"@).before(1),
        Fault::found("invalid "@ + prefix + ".weight_v "@).gone(Absence::MissingKokoro),
        kokoro_fixed("invalid "@ + prefix + ".bias"@),
    )
}

/// The complaint about a style map of a block.
pub open spec fn style_fault(group: Seq<char>, prefix: Seq<char>) -> Seq<char> {
    "invalid Kokoro AdaIN "@ + group + "."@ + prefix
}

/// The tensors of a block.
pub open spec fn block_tensors(group: Seq<char>, prefix: Seq<char>, input: u32, output: u32, upsample: bool) -> Seq<
    Tensor,
> {
    let i = input as usize;
    let o = output as usize;
    let shortcut = prefix + ".conv1x1"@;
    let pool = prefix + ".pool"@;
    let c1 = prefix + ".conv1"@;
    let c2 = prefix + ".conv2"@;
    let n1 = prefix + ".norm1"@;
    let n2 = prefix + ".norm2"@;
    (if input != output {
        row_tensors(
            group,
            shortcut,
            (block_conv_faults(shortcut).0, block_conv_faults(shortcut).1),
            o,
            i,
            1,
        )
    } else {
        Seq::empty()
    }) + (if upsample {
        conv_tensors(group, pool, block_conv_faults(pool), i, 1, 3, i)
    } else {
        Seq::empty()
    }) + conv_tensors(group, c1, block_conv_faults(c1), o, i, 3, o) + conv_tensors(
        group,
        c2,
        block_conv_faults(c2),
        o,
        o,
        3,
        o,
    ) + style_tensors(group, n1, style_fault(group, n1), i) + style_tensors(
        group,
        n2,
        style_fault(group, n2),
        o,
    )
}

/// How many tensors a block has.
pub open spec fn block_count(input: u32, output: u32, upsample: bool) -> int {
    (if input != output {
        2int
    } else {
        0
    }) + (if upsample {
        3int
    } else {
        0
    }) + 10
}

/// The complaints about a convolution of a block.
fn conv_complaints(prefix: &str) -> (complaints: (Complaint, Complaint, Complaint))
    ensures
        (complaints.0@, complaints.1@, complaints.2@) == block_conv_faults(prefix@),
{
    let label = "invalid ".to_owned().concat(prefix);
    (
        fixed_complaint(label.clone().concat(".weight_g").as_str()).before(1),
        Complaint::found(label.clone().concat(".weight_v ")).gone(Absence::MissingKokoro),
        fixed_complaint(label.clone().concat(".bias").as_str()),
    )
}

/// Requires the style map of a block.
fn load_style(loader: &mut Loader, group: &str, prefix: &str, channels: u32) -> (map: AdaIn)
    requires
        old(loader).wf(),
        2 * channels * 128 <= usize::MAX,
    ensures
        final(loader).wf(),
        map == AdaIn::at(old(loader).tensors().len() as int),
        final(loader).tensors() == old(loader).tensors() + style_tensors(
            group@,
            prefix@,
            style_fault(group@, prefix@),
            channels as usize,
        ),
        final(loader).tensors().len() == old(loader).tensors().len() + 2,
{
    let message = "invalid Kokoro AdaIN ".to_owned().concat(group).concat(".").concat(prefix);
    AdaIn::load(loader, group, prefix, message.as_str(), channels as usize)
}

/// The widths of a block are such that its weights can be counted.
pub open spec fn widths_fit(input: u32, output: u32) -> bool {
    &&& output * input * 3 <= usize::MAX
    &&& output * output * 3 <= usize::MAX
    &&& 2 * input * 128 <= usize::MAX
    &&& 2 * output * 128 <= usize::MAX
}

proof fn lemma_widths(a: int, b: int)
    requires
        0 <= a,
        0 <= b,
    ensures
        0 <= a * b <= a * b * 3,
        a * b * 1 == a * b,
{
    assert(0 <= a * b) by (nonlinear_arith)
        requires
            0 <= a,
            0 <= b,
    ;
}

impl KokoroAdaInResBlock {
    /// The block whose first tensor is buffer `base`.
    pub open spec fn at(base: int, input: u32, output: u32, upsample: bool) -> Self {
        let a = base + (if input != output {
            2int
        } else {
            0
        });
        let b = a + (if upsample {
            3int
        } else {
            0
        });
        KokoroAdaInResBlock {
            shortcut: base as usize,
            pool: if upsample {
                Conv::at(a)
            } else {
                Conv::at(b)
            },
            conv1: Conv::at(b),
            conv2: Conv::at(b + 3),
            norm1: AdaIn::at(b + 6),
            norm2: AdaIn::at(b + 8),
            input,
            output,
            upsample,
        }
    }

    /// The weights exist at their full size.
    pub open spec fn fits(self, plan: Plan) -> bool {
        &&& self.input != self.output ==> self.shortcut < usize::MAX && holds(
            plan,
            (self.shortcut + 1) as usize,
            self.output * self.input * 1,
        )
        &&& self.upsample ==> holds(plan, self.pool.weight, self.input * 3) && holds(
            plan,
            self.pool.bias,
            self.input as int,
        )
        &&& holds(plan, self.conv1.weight, self.output * self.input * 3)
        &&& holds(plan, self.conv1.bias, self.output as int)
        &&& holds(plan, self.conv2.weight, self.output * self.output * 3)
        &&& holds(plan, self.conv2.bias, self.output as int)
        &&& self.norm1.fits(plan, self.input as int)
        &&& self.norm2.fits(plan, self.output as int)
    }

    /// Requires the tensors of a block.
    pub fn load(
        loader: &mut Loader,
        group: &str,
        prefix: &str,
        input: u32,
        output: u32,
        upsample: bool,
    ) -> (block: Self)
        requires
            old(loader).wf(),
            widths_fit(input, output),
        ensures
            final(loader).wf(),
            block == Self::at(old(loader).tensors().len() as int, input, output, upsample),
            final(loader).tensors() == old(loader).tensors() + block_tensors(
                group@,
                prefix@,
                input,
                output,
                upsample,
            ),
            final(loader).tensors().len() == old(loader).tensors().len() + block_count(
                input,
                output,
                upsample,
            ),
    {
        let ghost before = loader.tensors();
        proof {
            lemma_widths(output as int, input as int);
            lemma_widths(output as int, output as int);
        }
        let shortcut: usize = loader.count();
        if input != output {
            let name = prefix.to_owned().concat(".conv1x1");
            let complaints = conv_complaints(name.as_str());
            let first: usize = load_rows(
                loader,
                group,
                name.as_str(),
                (complaints.0, complaints.1),
                output as usize,
                input as usize,
                1,
            );
        }
        let ghost after_shortcut = loader.tensors();
        let pool_name = prefix.to_owned().concat(".pool");
        let name1 = prefix.to_owned().concat(".conv1");
        let (pool, conv1) = if upsample {
            let pool = Conv::load(
                loader,
                group,
                pool_name.as_str(),
                conv_complaints(pool_name.as_str()),
                input as usize,
                1,
                3,
                input as usize,
            );
            let conv1 = Conv::load(
                loader,
                group,
                name1.as_str(),
                conv_complaints(name1.as_str()),
                output as usize,
                input as usize,
                3,
                output as usize,
            );
            (pool, conv1)
        } else {
            let conv1 = Conv::load(
                loader,
                group,
                name1.as_str(),
                conv_complaints(name1.as_str()),
                output as usize,
                input as usize,
                3,
                output as usize,
            );
            (conv1, conv1)
        };
        let name2 = prefix.to_owned().concat(".conv2");
        let conv2 = Conv::load(
            loader,
            group,
            name2.as_str(),
            conv_complaints(name2.as_str()),
            output as usize,
            output as usize,
            3,
            output as usize,
        );
        let norm1 = load_style(loader, group, prefix.to_owned().concat(".norm1").as_str(), input);
        let norm2 = load_style(loader, group, prefix.to_owned().concat(".norm2").as_str(), output);
        assert(loader.tensors() =~= before + block_tensors(
            group@,
            prefix@,
            input,
            output,
            upsample,
        ));
        KokoroAdaInResBlock {
            shortcut,
            pool,
            conv1,
            conv2,
            norm1,
            norm2,
            input,
            output,
            upsample,
        }
    }
}

/// A convolution of a block, which keeps the frames.
pub open spec fn keeping(input: u32, output: u32, kernel: u32) -> ConvShape {
    ConvShape { input, output, kernel, stride: 1, padding: kernel / 2, dilation: 1 }
}

/// How many frames come out of a block.
pub open spec fn frames_out(w: KokoroAdaInResBlock, frames: int) -> int {
    if w.upsample {
        2 * frames
    } else {
        frames
    }
}

/// The residual branch of a block, from its channels.
#[verifier::opaque]
pub open spec fn residual(w: KokoroAdaInResBlock, v: Seq<Term>, channels: Term, style: Term, frames: u32) -> Term {
    let out = frames_out(w, frames as int) as u32;
    let slope = Scalar::Single(SLOPE_0_2);
    let first = leaky_relu_f16(
        styled(w.norm1, v, channels, style, w.input, frames),
        (w.input * frames) as u32,
        slope,
    );
    let pooled = if w.upsample {
        conv_transpose1d_depthwise_f16(
            first,
            v[w.pool.weight as int],
            v[w.pool.bias as int],
            w.input,
            frames,
            out,
            3,
            2,
            1,
        )
    } else {
        first
    };
    let middle = conv1d(
        pooled,
        v[w.conv1.weight as int],
        v[w.conv1.bias as int],
        keeping(w.input, w.output, 3),
        out,
        out,
    );
    conv1d(
        leaky_relu_f16(
            styled(w.norm2, v, middle, style, w.output, out),
            (w.output * out) as u32,
            slope,
        ),
        v[w.conv2.weight as int],
        v[w.conv2.bias as int],
        keeping(w.output, w.output, 3),
        out,
        out,
    )
}

/// The shortcut of a block, from its channels.
#[verifier::opaque]
pub open spec fn shortcut(w: KokoroAdaInResBlock, v: Seq<Term>, channels: Term, frames: u32) -> Term {
    let out = frames_out(w, frames as int) as u32;
    let wide = if w.upsample {
        repeat_interleave_f16(channels, w.input, frames, 2)
    } else {
        channels
    };
    if w.input != w.output {
        conv1d(
            wide,
            v[w.shortcut + 1],
            Term::Zeros(w.output as nat),
            keeping(w.input, w.output, 1),
            out,
            out,
        )
    } else {
        wide
    }
}

/// The rows that come out of a block.
pub open spec fn block_rows(w: KokoroAdaInResBlock, v: Seq<Term>, rows: Term, style: Term, frames: u32) -> Term {
    let out = frames_out(w, frames as int) as u32;
    let n = (w.output * out) as u32;
    let channels = transpose_f16(rows, frames, w.input);
    transpose_f16(
        scale_f16(
            add_f16(residual(w, v, channels, style, frames), shortcut(w, v, channels, frames), n),
            n,
            Scalar::Single(FRAC_1_SQRT_2),
        ),
        w.output,
        out,
    )
}

/// Everything a block counts over `frames` frames can be counted.
pub open spec fn block_countable(w: KokoroAdaInResBlock, frames: int) -> bool {
    &&& 0 <= frames
    &&& 2 * frames <= u32::MAX
    &&& w.input * (2 * frames) <= u32::MAX
    &&& w.output * (2 * frames) <= u32::MAX
    &&& w.input * (2 * frames) <= usize::MAX
    &&& w.output * (2 * frames) <= usize::MAX
}

/// The counts of a block.
proof fn lemma_counts(w: KokoroAdaInResBlock, frames: int)
    requires
        block_countable(w, frames),
    ensures
        0 <= w.input * frames <= w.input * (2 * frames),
        0 <= w.output * frames <= w.output * (2 * frames),
        w.input * frames * 2 == w.input * (2 * frames),
        frames * w.input == w.input * frames,
{
    let i = w.input as int;
    let o = w.output as int;
    assert(0 <= i * frames && i * frames * 2 == i * (2 * frames)) by (nonlinear_arith)
        requires
            0 <= i,
            0 <= frames,
    ;
    assert(0 <= o * frames && o * frames * 2 == o * (2 * frames)) by (nonlinear_arith)
        requires
            0 <= o,
            0 <= frames,
    ;
    lemma_mul_comm(frames, i);
}

impl KokoroAdaInResBlock {
    /// Runs the residual branch. The result names a fresh buffer.
    fn run_residual(
        &self,
        plan: &mut Plan,
        channels: usize,
        style: usize,
        frames: u32,
        Ghost(start): Ghost<Plan>,
    ) -> (out: usize)
        requires
            old(plan).wf(),
            extends(start, *old(plan)),
            self.fits(start),
            block_countable(*self, frames as int),
            holds(*old(plan), channels, self.input * frames),
            holds(*old(plan), style, 128),
        ensures
            final(plan).wf(),
            extends(*old(plan), *final(plan)),
            out < final(plan).values().len(),
            final(plan).sizes()[out as int] == self.output * frames_out(*self, frames as int),
            final(plan).values()[out as int] == residual(
                *self,
                start.values(),
                old(plan).values()[channels as int],
                old(plan).values()[style as int],
                frames,
            ),
    {
        reveal(residual);
        proof {
            lemma_counts(*self, frames as int);
        }
        let out_frames: u32 = if self.upsample {
            2 * frames
        } else {
            frames
        };
        let slope = Scalar::Single(SLOPE_0_2);
        let normed: usize = self.norm1.forward(
            plan,
            channels,
            style,
            self.input,
            frames,
            Ghost(start),
        );
        let first: usize = run_leaky(plan, normed, self.input * frames, slope);
        let pooled: usize = if self.upsample {
            let wide: usize = plan.zeros(self.input as usize * out_frames as usize);
            plan.conv_transpose1d_depthwise_f16(
                first,
                self.pool.weight,
                self.pool.bias,
                wide,
                self.input,
                frames,
                out_frames,
                3,
                2,
                1,
            );
            wide
        } else {
            first
        };
        let shape1 = ConvShape {
            input: self.input,
            output: self.output,
            kernel: 3,
            stride: 1,
            padding: 1,
            dilation: 1,
        };
        let middle: usize = run_conv1d(
            plan,
            pooled,
            self.conv1.weight,
            self.conv1.bias,
            shape1,
            out_frames,
            out_frames,
        );
        let normed2: usize = self.norm2.forward(
            plan,
            middle,
            style,
            self.output,
            out_frames,
            Ghost(start),
        );
        let second: usize = run_leaky(plan, normed2, self.output * out_frames, slope);
        let shape2 = ConvShape {
            input: self.output,
            output: self.output,
            kernel: 3,
            stride: 1,
            padding: 1,
            dilation: 1,
        };
        run_conv1d(
            plan,
            second,
            self.conv2.weight,
            self.conv2.bias,
            shape2,
            out_frames,
            out_frames,
        )
    }

    /// Runs the shortcut. The result names its buffer.
    fn run_shortcut(&self, plan: &mut Plan, channels: usize, frames: u32, Ghost(start): Ghost<Plan>) -> (out:
        usize)
        requires
            old(plan).wf(),
            extends(start, *old(plan)),
            self.fits(start),
            block_countable(*self, frames as int),
            holds(*old(plan), channels, self.input * frames),
        ensures
            final(plan).wf(),
            extends(*old(plan), *final(plan)),
            holds(*final(plan), out, self.output * frames_out(*self, frames as int)),
            final(plan).values()[out as int] == shortcut(
                *self,
                start.values(),
                old(plan).values()[channels as int],
                frames,
            ),
    {
        reveal(shortcut);
        proof {
            lemma_counts(*self, frames as int);
        }
        let out_frames: u32 = if self.upsample {
            2 * frames
        } else {
            frames
        };
        let wide: usize = if self.upsample {
            let repeated: usize = plan.zeros(self.input as usize * out_frames as usize);
            plan.repeat_interleave_f16(channels, repeated, self.input, frames, 2);
            repeated
        } else {
            channels
        };
        if self.input != self.output {
            let shape = ConvShape {
                input: self.input,
                output: self.output,
                kernel: 1,
                stride: 1,
                padding: 0,
                dilation: 1,
            };
            let bias: usize = plan.zeros(self.output as usize);
            run_conv1d(plan, wide, self.shortcut + 1, bias, shape, out_frames, out_frames)
        } else {
            wide
        }
    }

    /// Runs the block on the `frames` rows of `input`. The result names the
    /// rows that come out.
    pub fn forward(&self, plan: &mut Plan, input: usize, frames: usize, style: usize) -> (outcome:
        Result<usize, String>)
        requires
            old(plan).wf(),
            self.fits(*old(plan)),
            block_countable(*self, frames as int),
            input < old(plan).values().len(),
            style < old(plan).values().len(),
        ensures
            final(plan).wf(),
            outcome is Ok <==> old(plan).sizes()[input as int] == frames * self.input && old(
                plan,
            ).sizes()[style as int] == 128,
            match outcome {
                Err(message) => message@ == "invalid Kokoro AdaIN block input"@ && *final(plan)
                    == *old(plan),
                Ok(out) => {
                    &&& extends(*old(plan), *final(plan))
                    &&& out < final(plan).values().len()
                    &&& final(plan).sizes()[out as int] == frames_out(*self, frames as int)
                        * self.output
                    &&& final(plan).values()[out as int] == block_rows(
                        *self,
                        old(plan).values(),
                        old(plan).values()[input as int],
                        old(plan).values()[style as int],
                        frames as u32,
                    )
                },
            },
    {
        proof {
            lemma_counts(*self, frames as int);
        }
        if plan.size(input) != frames * self.input as usize || plan.size(style) != 128 {
            return Err("invalid Kokoro AdaIN block input".to_owned());
        }
        let ghost start = *plan;
        let t: u32 = frames as u32;
        let out_frames: u32 = if self.upsample {
            2 * t
        } else {
            t
        };
        let channels: usize = run_transposed(plan, input, t, self.input);
        let main: usize = self.run_residual(plan, channels, style, t, Ghost(start));
        let side: usize = self.run_shortcut(plan, channels, t, Ghost(start));
        let n: u32 = self.output * out_frames;
        let sum: usize = run_sum(plan, main, side, n);
        let scaled: usize = run_scaled(plan, sum, n, Scalar::Single(FRAC_1_SQRT_2));
        proof {
            lemma_mul_comm(self.output as int, out_frames as int);
        }
        Ok(run_transposed(plan, scaled, self.output, out_frames))
    }
}

/// A longer plan with the same weights gives the same rows.
pub proof fn lemma_block_rows_at(
    w: KokoroAdaInResBlock,
    a: Plan,
    b: Plan,
    rows: Term,
    style: Term,
    frames: u32,
)
    requires
        extends(a, b),
        w.fits(a),
    ensures
        block_rows(w, a.values(), rows, style, frames) == block_rows(
            w,
            b.values(),
            rows,
            style,
            frames,
        ),
{
    reveal(residual);
    reveal(shortcut);
}

impl AdaIn {
    /// Loaded weights exist at their full size.
    pub proof fn law_loaded_weights_fit(
        plan: Plan,
        base: int,
        group: Seq<char>,
        prefix: Seq<char>,
        message: Seq<char>,
        channels: usize,
    )
        requires
            2 * channels <= usize::MAX,
            stores(plan, base, style_tensors(group, prefix, message, channels)),
        ensures
            Self::at(base).fits(plan, channels as int),
    {
        let tensors = style_tensors(group, prefix, message, channels);
        let twice = (2 * channels) as usize;
        lemma_stored2(plan, base, tensors, 0, twice, 128);
        lemma_stored1(plan, base, tensors, 1, twice);
    }
}

impl KokoroAdaInResBlock {
    /// Loaded weights exist at their full size.
    pub proof fn law_loaded_weights_fit(
        plan: Plan,
        base: int,
        group: Seq<char>,
        prefix: Seq<char>,
        input: u32,
        output: u32,
        upsample: bool,
    )
        requires
            widths_fit(input, output),
            stores(plan, base, block_tensors(group, prefix, input, output, upsample)),
        ensures
            Self::at(base, input, output, upsample).fits(plan),
    {
        let i = input as usize;
        let o = output as usize;
        let side = prefix + ".conv1x1"@;
        let pool = prefix + ".pool"@;
        let c1 = prefix + ".conv1"@;
        let c2 = prefix + ".conv2"@;
        let n1 = prefix + ".norm1"@;
        let n2 = prefix + ".norm2"@;
        let faults = (block_conv_faults(side).0, block_conv_faults(side).1);
        let t0 = if input != output {
            row_tensors(group, side, faults, o, i, 1)
        } else {
            Seq::empty()
        };
        let p1 = if upsample {
            conv_tensors(group, pool, block_conv_faults(pool), i, 1, 3, i)
        } else {
            Seq::empty()
        };
        let p2 = conv_tensors(group, c1, block_conv_faults(c1), o, i, 3, o);
        let p3 = conv_tensors(group, c2, block_conv_faults(c2), o, o, 3, o);
        let p4 = style_tensors(group, n1, style_fault(group, n1), i);
        let p5 = style_tensors(group, n2, style_fault(group, n2), o);
        let t1 = t0 + p1;
        let t2 = t1 + p2;
        let t3 = t2 + p3;
        let t4 = t3 + p4;
        lemma_stores_split(plan, base, t4, p5);
        lemma_stores_split(plan, base, t3, p4);
        lemma_stores_split(plan, base, t2, p3);
        lemma_stores_split(plan, base, t1, p2);
        lemma_stores_split(plan, base, t0, p1);
        if input != output {
            lemma_stored3(plan, base, t0, 0, o, 1, 1);
            lemma_stored3(plan, base, t0, 1, o, i, 1);
        }
        if upsample {
            Conv::law_loaded_weights_fit(
                plan,
                base + t0.len(),
                group,
                pool,
                block_conv_faults(pool),
                i,
                1,
                3,
                i,
            );
            assert(i * 1 * 3 == i * 3) by (nonlinear_arith);
        }
        let b = base + t1.len();
        Conv::law_loaded_weights_fit(plan, b, group, c1, block_conv_faults(c1), o, i, 3, o);
        Conv::law_loaded_weights_fit(plan, b + 3, group, c2, block_conv_faults(c2), o, o, 3, o);
        AdaIn::law_loaded_weights_fit(plan, b + 6, group, n1, style_fault(group, n1), i);
        AdaIn::law_loaded_weights_fit(plan, b + 8, group, n2, style_fault(group, n2), o);
    }
}

} // verus!
