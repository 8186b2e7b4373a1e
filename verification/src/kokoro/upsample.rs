//! Transposed convolutions, phase by phase.
//!
//! A transposed convolution whose kernel is twice its stride reads two input
//! frames for every output frame. All output frames with the same remainder
//! modulo the stride (a phase) share their two taps, so one matrix product
//! serves a whole phase.
use vstd::prelude::*;
use vstd::string::*;
use crate::arith::lemma_mul_assoc;
use crate::device::{Plan, Term, extends, holds};
use crate::device::value::{
    matmul_f16, phase_weight, scatter_conv_transpose_phase_f16, unfold_adjacent_f16,
};
use crate::kokoro::checkpoint::{Conv, conv_tensors, thrice, thrice_fixed};
use crate::layout::{lemma_cell, lemma_voxel, voxel};
use crate::weights::{Loader, Tensor, stores};

verus! {

/// The tap that meets the later of a phase's two input frames.
pub open spec fn first_tap(phase: int, stride: int, padding: int) -> int {
    (phase + padding) % stride
}

/// The tap that meets the earlier of a phase's two input frames.
pub open spec fn second_tap(phase: int, stride: int, padding: int) -> int {
    first_tap(phase, stride, padding) + stride
}

/// How far before its own input frame a phase starts to read.
pub open spec fn phase_offset(phase: int, stride: int, padding: int) -> int {
    (phase + padding) / stride - 1
}

/// Output frame `q * stride + phase` of a transposed convolution receives tap
/// `tap` of input frame `source` exactly when these are the two pairs that the
/// phase gathers.
pub proof fn law_a_phase_has_two_taps(
    q: int,
    phase: int,
    stride: int,
    padding: int,
    source: int,
    tap: int,
)
    requires
        stride > 0,
        0 <= phase < stride,
        padding >= 0,
        0 <= tap < 2 * stride,
    ensures
        source * stride + tap == q * stride + phase + padding <==> ((source == q + phase_offset(
            phase,
            stride,
            padding,
        ) && tap == second_tap(phase, stride, padding)) || (source == q + phase_offset(
            phase,
            stride,
            padding,
        ) + 1 && tap == first_tap(phase, stride, padding))),
{
    let c = phase + padding;
    let carry = c / stride;
    let first = c % stride;
    vstd::arithmetic::div_mod::lemma_fundamental_div_mod(c, stride);
    vstd::arithmetic::div_mod::lemma_mod_bound(c, stride);
    assert(c == stride * carry + first);
    let d = q + carry - source;
    assert(source * stride + tap == q * stride + phase + padding <==> tap == d * stride + first)
        by (nonlinear_arith)
        requires
            phase + padding == stride * carry + first,
            d == q + carry - source,
    ;
    if tap == d * stride + first {
        assert(d == 0 || d == 1) by (nonlinear_arith)
            requires
                0 <= d * stride + first < 2 * stride,
                0 <= first < stride,
        ;
    }
    assert(0 * stride == 0 && 1 * stride == stride) by (nonlinear_arith);
}

/// The two taps of one phase for every pair of an output and an input
/// channel: the second tap, then the first.
pub fn gather_phase<T: Copy>(
    weight: &[T],
    input: usize,
    output: usize,
    kernel: usize,
    stride: usize,
    padding: usize,
    phase: usize,
) -> (out: Vec<T>)
    requires
        stride > 0,
        kernel == 2 * stride,
        phase + padding <= usize::MAX,
        weight@.len() == input * output * kernel,
    ensures
        out@.len() == output * input * 2,
        forall|o: int, i: int|
            0 <= o < output && 0 <= i < input ==> #[trigger] voxel(
                out@,
                input as int,
                2,
                o,
                i,
                0,
            ) == voxel(
                weight@,
                output as int,
                kernel as int,
                i,
                o,
                second_tap(phase as int, stride as int, padding as int),
            ),
        forall|o: int, i: int|
            0 <= o < output && 0 <= i < input ==> #[trigger] voxel(
                out@,
                input as int,
                2,
                o,
                i,
                1,
            ) == voxel(
                weight@,
                output as int,
                kernel as int,
                i,
                o,
                first_tap(phase as int, stride as int, padding as int),
            ),
{
    let first: usize = (phase + padding) % stride;
    let second: usize = first + stride;
    let n: usize = weight.len();
    let mut out: Vec<T> = Vec::new();
    proof {
        assert(0 * input * 2 == 0) by (nonlinear_arith);
    }
    for o in 0..output
        invariant
            n == weight@.len(),
            weight@.len() == input * output * kernel,
            0 <= first < stride,
            second == first + stride,
            kernel == 2 * stride,
            out@.len() == o * input * 2,
            forall|p: int, i: int|
                0 <= p < o && 0 <= i < input ==> #[trigger] voxel(out@, input as int, 2, p, i, 0)
                    == voxel(weight@, output as int, kernel as int, i, p, second as int),
            forall|p: int, i: int|
                0 <= p < o && 0 <= i < input ==> #[trigger] voxel(out@, input as int, 2, p, i, 1)
                    == voxel(weight@, output as int, kernel as int, i, p, first as int),
    {
        proof {
            assert((o + 1) * input * 2 == (o * input + input) * 2) by (nonlinear_arith);
        }
        for i in 0..input
            invariant
                n == weight@.len(),
                weight@.len() == input * output * kernel,
                0 <= first < stride,
                second == first + stride,
                kernel == 2 * stride,
                o < output,
                out@.len() == (o * input + i) * 2,
                forall|p: int, j: int|
                    0 <= p < output && 0 <= j < input && (p < o || p == o && j < i)
                        ==> #[trigger] voxel(out@, input as int, 2, p, j, 0) == voxel(
                        weight@,
                        output as int,
                        kernel as int,
                        j,
                        p,
                        second as int,
                    ),
                forall|p: int, j: int|
                    0 <= p < output && 0 <= j < input && (p < o || p == o && j < i)
                        ==> #[trigger] voxel(out@, input as int, 2, p, j, 1) == voxel(
                        weight@,
                        output as int,
                        kernel as int,
                        j,
                        p,
                        first as int,
                    ),
        {
            let ghost before = out@;
            proof {
                lemma_voxel(
                    input as int,
                    output as int,
                    kernel as int,
                    i as int,
                    o as int,
                    second as int,
                );
                lemma_voxel(
                    input as int,
                    output as int,
                    kernel as int,
                    i as int,
                    o as int,
                    first as int,
                );
                lemma_bounds(input as int, output as int, kernel as int, i as int, o as int);
            }
            let base: usize = (i * output + o) * kernel;
            out.push(weight[base + second]);
            out.push(weight[base + first]);
            proof {
                assert forall|p: int, j: int|
                    0 <= p < output && 0 <= j < input && (p < o || p == o && j < i + 1) implies {
                    &&& #[trigger] voxel(out@, input as int, 2, p, j, 0) == voxel(
                        weight@,
                        output as int,
                        kernel as int,
                        j,
                        p,
                        second as int,
                    )
                } by {
                    lemma_earlier(input as int, o as int, i as int, p, j);
                    if p < o || j < i {
                        assert(voxel(before, input as int, 2, p, j, 0) == voxel(
                            weight@,
                            output as int,
                            kernel as int,
                            j,
                            p,
                            second as int,
                        ));
                    }
                }
                assert forall|p: int, j: int|
                    0 <= p < output && 0 <= j < input && (p < o || p == o && j < i + 1) implies {
                    &&& #[trigger] voxel(out@, input as int, 2, p, j, 1) == voxel(
                        weight@,
                        output as int,
                        kernel as int,
                        j,
                        p,
                        first as int,
                    )
                } by {
                    lemma_earlier(input as int, o as int, i as int, p, j);
                    if p < o || j < i {
                        assert(voxel(before, input as int, 2, p, j, 1) == voxel(
                            weight@,
                            output as int,
                            kernel as int,
                            j,
                            p,
                            first as int,
                        ));
                    }
                }
            }
        }
    }
    out
}

proof fn lemma_bounds(input: int, output: int, kernel: int, i: int, o: int)
    requires
        0 <= i < input,
        0 <= o < output,
        0 < kernel,
    ensures
        0 <= i * output,
        0 <= i * output + o,
        (i * output + o) * kernel >= 0,
        (i * output + o) * kernel + kernel <= input * output * kernel,
        i * output + o <= (i * output + o) * kernel,
{
    lemma_cell(input, output, i, o);
    lemma_cell(input * output, kernel, i * output + o, 0);
    assert(i * output + o <= (i * output + o) * kernel) by (nonlinear_arith)
        requires
            0 <= i * output + o,
            kernel >= 1,
    ;
}

proof fn lemma_earlier(input: int, o: int, i: int, p: int, j: int)
    requires
        0 <= i < input,
        0 <= j < input,
        0 <= p,
        p < o || p == o && j <= i,
    ensures
        p < o || j < i ==> (p * input + j) * 2 + 1 < (o * input + i) * 2,
        0 <= (p * input + j) * 2,
{
    assert(0 <= p * input) by (nonlinear_arith)
        requires
            0 <= p,
            0 <= input,
    ;
    if p < o {
        assert((p + 1) * input <= o * input) by (nonlinear_arith)
            requires
                p + 1 <= o,
                0 <= input,
        ;
        assert((p + 1) * input == p * input + input) by (nonlinear_arith);
    }
}

/// A transposed convolution, as buffers and numbers.
#[derive(Clone, Copy, Debug, PartialEq, Eq, Structural)]
pub struct ConvTranspose {
    pub conv: Conv,
    pub input: u32,
    pub output: u32,
    pub kernel: u32,
    pub stride: u32,
    pub padding: u32,
}

/// The kernel is twice the stride, and the frames grow by the stride.
pub open spec fn phased(kernel: int, stride: int, padding: int) -> bool {
    kernel == 2 * stride && kernel == stride + 2 * padding
}

/// The tensors of a transposed convolution.
pub open spec fn transpose_tensors(prefix: Seq<char>, input: usize, output: usize, kernel: usize) -> Seq<
    Tensor,
> {
    conv_tensors(
        "decoder"@,
        prefix,
        thrice_fixed("invalid Kokoro transposed convolution "@ + prefix),
        input,
        output,
        kernel,
        output,
    )
}

/// What the output holds after the first `n` phases.
pub open spec fn phases_output(w: ConvTranspose, v: Seq<Term>, x: Term, frames: u32, n: nat) -> Term
    decreases n,
{
    if n == 0 {
        Term::Zeros((w.output * (frames * w.stride)) as nat)
    } else {
        let phase = n - 1;
        let offset = phase_offset(phase, w.stride as int, w.padding as int) as i32;
        let taps = phase_weight(
            v[w.conv.weight as int],
            w.input,
            w.output,
            w.kernel,
            w.stride,
            w.padding,
            phase as u32,
        );
        scatter_conv_transpose_phase_f16(
            matmul_f16(
                unfold_adjacent_f16(x, w.input, frames, offset),
                taps,
                frames,
                w.output,
                (2 * w.input) as u32,
            ),
            v[w.conv.bias as int],
            phases_output(w, v, x, frames, phase as nat),
            frames,
            w.output,
            w.stride,
            phase as u32,
        )
    }
}

/// The transposed convolution of `frames` frames.
#[verifier::opaque]
pub open spec fn upsampled(w: ConvTranspose, v: Seq<Term>, x: Term, frames: u32) -> Term {
    phases_output(w, v, x, frames, w.stride as nat)
}

impl ConvTranspose {
    /// The convolution whose first tensor is buffer `base`.
    pub open spec fn at(base: int, input: u32, output: u32, kernel: u32, stride: u32, padding: u32) -> Self {
        ConvTranspose { conv: Conv::at(base), input, output, kernel, stride, padding }
    }

    /// The weights exist at their full size.
    pub open spec fn fits(self, plan: Plan) -> bool {
        &&& holds(plan, self.conv.weight, self.input * self.output * self.kernel)
        &&& holds(plan, self.conv.bias, self.output as int)
        &&& phased(self.kernel as int, self.stride as int, self.padding as int)
        &&& self.stride > 0
    }

    /// Requires the tensors of a transposed convolution.
    pub fn load(
        loader: &mut Loader,
        prefix: &str,
        input: u32,
        output: u32,
        kernel: u32,
        stride: u32,
        padding: u32,
    ) -> (outcome: Result<Self, String>)
        requires
            old(loader).wf(),
            input * output <= usize::MAX,
            input * output * kernel <= usize::MAX,
            2 * stride <= u32::MAX,
            stride + 2 * padding <= u32::MAX,
        ensures
            final(loader).wf(),
            final(loader).tensors() == old(loader).tensors() + transpose_tensors(
                prefix@,
                input as usize,
                output as usize,
                kernel as usize,
            ),
            final(loader).tensors().len() == old(loader).tensors().len() + 3,
            outcome is Ok <==> phased(kernel as int, stride as int, padding as int),
            match outcome {
                Err(message) => message@ == "unsupported Kokoro transposed convolution geometry"@,
                Ok(conv) => conv == Self::at(
                    old(loader).tensors().len() as int,
                    input,
                    output,
                    kernel,
                    stride,
                    padding,
                ),
            },
    {
        let message = "invalid Kokoro transposed convolution ".to_owned().concat(prefix);
        let conv = Conv::load(
            loader,
            "decoder",
            prefix,
            thrice(message.as_str()),
            input as usize,
            output as usize,
            kernel as usize,
            output as usize,
        );
        if kernel == stride * 2 && kernel == stride + 2 * padding {
            Ok(ConvTranspose { conv, input, output, kernel, stride, padding })
        } else {
            Err("unsupported Kokoro transposed convolution geometry".to_owned())
        }
    }

    /// Everything the convolution counts over `frames` frames can be counted.
    pub open spec fn countable(self, frames: int) -> bool {
        &&& 0 < frames
        &&& frames * self.stride <= u32::MAX
        &&& 2 * self.input <= u32::MAX
        &&& self.output * self.input * 2 <= usize::MAX
        &&& frames * (2 * self.input) <= usize::MAX
        &&& frames * self.output <= usize::MAX
        &&& self.output * (frames * self.stride) <= usize::MAX
    }

    /// Gathers the taps of every phase. The result is the first of `stride`
    /// buffers.
    fn prepare(&self, plan: &mut Plan, Ghost(start): Ghost<Plan>) -> (first: usize)
        requires
            old(plan).wf(),
            extends(start, *old(plan)),
            self.fits(start),
            self.output * self.input * 2 <= usize::MAX,
        ensures
            final(plan).wf(),
            extends(*old(plan), *final(plan)),
            first == old(plan).values().len(),
            final(plan).values().len() == first + self.stride,
            forall|p: int|
                0 <= p < self.stride ==> #[trigger] final(plan).sizes()[first + p] == self.output
                    * self.input * 2,
            forall|p: int|
                0 <= p < self.stride ==> #[trigger] final(plan).values()[first + p] == phase_weight(
                    start.values()[self.conv.weight as int],
                    self.input,
                    self.output,
                    self.kernel,
                    self.stride,
                    self.padding,
                    p as u32,
                ),
    {
        let first: usize = plan.count();
        let ghost entry = *plan;
        proof {
            let i = self.input as int;
            let o = self.output as int;
            assert(o * i >= 0 && o * i <= o * i * 2) by (nonlinear_arith)
                requires
                    o >= 0,
                    i >= 0,
            ;
        }
        for phase in 0..self.stride
            invariant
                plan.wf(),
                extends(start, entry),
                extends(entry, *plan),
                self.fits(start),
                self.output * self.input <= self.output * self.input * 2 <= usize::MAX,
                first == entry.values().len(),
                plan.values().len() == first + phase,
                forall|p: int|
                    0 <= p < phase ==> #[trigger] plan.sizes()[first + p] == self.output
                        * self.input * 2,
                forall|p: int|
                    0 <= p < phase ==> #[trigger] plan.values()[first + p] == phase_weight(
                        start.values()[self.conv.weight as int],
                        self.input,
                        self.output,
                        self.kernel,
                        self.stride,
                        self.padding,
                        p as u32,
                    ),
        {
            let taps: usize = plan.zeros(self.output as usize * self.input as usize * 2);
            plan.phase_weight(
                self.conv.weight,
                taps,
                self.input,
                self.output,
                self.kernel,
                self.stride,
                self.padding,
                phase,
            );
        }
        first
    }

    /// Runs the convolution on channel-first data. The result names a fresh
    /// buffer.
    pub(crate) fn forward(&self, plan: &mut Plan, x: usize, frames: u32, Ghost(start): Ghost<Plan>) -> (out:
        usize)
        requires
            old(plan).wf(),
            extends(start, *old(plan)),
            self.fits(start),
            self.countable(frames as int),
            holds(*old(plan), x, self.input * frames),
        ensures
            final(plan).wf(),
            extends(*old(plan), *final(plan)),
            out < final(plan).values().len(),
            final(plan).sizes()[out as int] == self.output * (frames * self.stride),
            final(plan).values()[out as int] == upsampled(
                *self,
                start.values(),
                old(plan).values()[x as int],
                frames,
            ),
    {
        reveal(upsampled);
        let ghost entry = *plan;
        let taps: usize = self.prepare(plan, Ghost(start));
        let ghost prepared = *plan;
        proof {
            lemma_mul_assoc(self.output as int, self.input as int, 2);
            assert(frames <= frames * self.stride) by (nonlinear_arith)
                requires
                    frames >= 0,
                    self.stride >= 1,
            ;
            assert(frames * self.stride <= usize::MAX || self.output == 0) by (nonlinear_arith)
                requires
                    self.output * (frames * self.stride) <= usize::MAX,
                    frames * self.stride >= 0,
                    self.output >= 0,
            ;
        }
        let output: usize = plan.zeros(self.output as usize * (frames * self.stride) as usize);
        let unfolded: usize = plan.zeros(frames as usize * (2 * self.input) as usize);
        let rows: usize = plan.zeros(frames as usize * self.output as usize);
        proof {
            plan.lemma_buffers_fit();
            assert(self.output * (2 * self.input) == self.output * self.input * 2)
                by (nonlinear_arith);
        }
        for phase in 0..self.stride
            invariant
                plan.wf(),
                extends(start, entry),
                extends(entry, prepared),
                extends(prepared, *plan),
                self.fits(start),
                self.countable(frames as int),
                taps == entry.values().len(),
                prepared.values().len() == taps + self.stride,
                output == prepared.values().len(),
                unfolded == output + 1,
                rows == output + 2,
                plan.values().len() == output + 3,
                plan.values().len() <= usize::MAX,
                holds(entry, x, self.input * frames),
                self.output * (2 * self.input) == self.output * self.input * 2,
                plan.sizes()[output as int] == self.output * (frames * self.stride),
                plan.sizes()[unfolded as int] == frames * (2 * self.input),
                plan.sizes()[rows as int] == frames * self.output,
                forall|p: int|
                    0 <= p < self.stride ==> #[trigger] prepared.sizes()[taps + p] == self.output
                        * self.input * 2,
                forall|p: int|
                    0 <= p < self.stride ==> #[trigger] prepared.values()[taps + p] == phase_weight(
                        start.values()[self.conv.weight as int],
                        self.input,
                        self.output,
                        self.kernel,
                        self.stride,
                        self.padding,
                        p as u32,
                    ),
                plan.values()[output as int] == phases_output(
                    *self,
                    start.values(),
                    entry.values()[x as int],
                    frames,
                    phase as nat,
                ),
        {
            proof {
                assert(prepared.sizes()[taps + phase] == self.output * self.input * 2);
                assert(prepared.values()[taps + phase] == phase_weight(
                    start.values()[self.conv.weight as int],
                    self.input,
                    self.output,
                    self.kernel,
                    self.stride,
                    self.padding,
                    phase as u32,
                ));
                assert(0 <= (phase + self.padding) / (self.stride as int) <= 1) by {
                    lemma_carry(phase as int, self.stride as int, self.padding as int);
                }
            }
            let carry: u32 = (phase + self.padding) / self.stride;
            let offset: i32 = carry as i32 - 1;
            plan.unfold_adjacent_f16(x, unfolded, self.input, frames, offset);
            plan.matmul_f16(
                unfolded,
                taps + phase as usize,
                rows,
                frames,
                self.output,
                2 * self.input,
            );
            plan.scatter_conv_transpose_phase_f16(
                rows,
                self.conv.bias,
                output,
                frames,
                self.output,
                self.stride,
                phase,
            );
        }
        output
    }
}

/// Half a stride of padding carries at most once.
proof fn lemma_carry(phase: int, stride: int, padding: int)
    requires
        0 <= phase < stride,
        2 * padding == stride,
    ensures
        0 <= (phase + padding) / stride <= 1,
{
    if phase + padding < stride {
        vstd::arithmetic::div_mod::lemma_basic_div(phase + padding, stride);
    } else {
        vstd::arithmetic::div_mod::lemma_div_is_ordered(phase + padding, 2 * stride - 1, stride);
        assert((2 * stride - 1) / stride == 1) by (nonlinear_arith)
            requires
                stride > 0,
        ;
        vstd::arithmetic::div_mod::lemma_div_pos_is_pos(phase + padding, stride);
    }
}

/// The frames grow by the stride.
pub proof fn law_upsampling_multiplies_the_frames(
    frames: int,
    kernel: int,
    stride: int,
    padding: int,
)
    requires
        phased(kernel, stride, padding),
    ensures
        (frames - 1) * stride - 2 * padding + kernel == frames * stride,
{
    assert((frames - 1) * stride == frames * stride - stride) by (nonlinear_arith);
}

impl ConvTranspose {
    /// Loaded weights exist at their full size.
    pub proof fn law_loaded_weights_fit(
        plan: Plan,
        base: int,
        prefix: Seq<char>,
        input: u32,
        output: u32,
        kernel: u32,
        stride: u32,
        padding: u32,
    )
        requires
            phased(kernel as int, stride as int, padding as int),
            stride > 0,
            stores(
                plan,
                base,
                transpose_tensors(prefix, input as usize, output as usize, kernel as usize),
            ),
        ensures
            Self::at(base, input, output, kernel, stride, padding).fits(plan),
    {
        Conv::law_loaded_weights_fit(
            plan,
            base,
            "decoder"@,
            prefix,
            thrice_fixed("invalid Kokoro transposed convolution "@ + prefix),
            input as usize,
            output as usize,
            kernel as usize,
            output as usize,
        );
    }
}

} // verus!
