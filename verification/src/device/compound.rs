//! Small compositions of kernels that several models share.
use vstd::prelude::*;
use crate::arith::{lemma_mul_assoc, lemma_mul_comm};
use crate::device::{Plan, Scalar, Term, extends, holds};
use crate::device::value::{
    add_bias_f16_inplace, add_f16, conv1d_general_f16, copy_f16_to_f32, layer_norm_f32in,
    leaky_relu_f16, matmul_f16, scale_f16, transpose_f16, unfold_conv1d_f16,
};

verus! {

/// A linear map with a bias.
pub open spec fn linear(x: Term, weight: Term, bias: Term, rows: u32, n: u32, k: u32) -> Term {
    add_bias_f16_inplace(matmul_f16(x, weight, rows, n, k), bias, rows, n)
}

/// Everything but the buffer `x` is as before; buffers may have been added.
pub open spec fn only_changes(before: Plan, after: Plan, x: usize) -> bool {
    &&& before.values().len() <= after.values().len()
    &&& forall|i: int|
        0 <= i < before.values().len() && i != x ==> #[trigger] after.values()[i]
            == before.values()[i]
    &&& forall|i: int|
        0 <= i < before.values().len() ==> #[trigger] after.sizes()[i] == before.sizes()[i]
}

/// `out = weight * x + bias` into a fresh buffer.
pub fn run_linear(plan: &mut Plan, x: usize, weight: usize, bias: usize, rows: u32, n: u32, k: u32) -> (
out: usize)
    requires
        old(plan).wf(),
        holds(*old(plan), x, rows * k),
        holds(*old(plan), weight, n * k),
        holds(*old(plan), bias, n as int),
        rows * n <= usize::MAX,
    ensures
        final(plan).wf(),
        out == old(plan).values().len(),
        final(plan).sizes() == old(plan).sizes().push((rows * n) as usize),
        final(plan).values() == old(plan).values().push(
            linear(
                old(plan).values()[x as int],
                old(plan).values()[weight as int],
                old(plan).values()[bias as int],
                rows,
                n,
                k,
            ),
        ),
{
    let ghost before = plan.values();
    let out: usize = plan.zeros(rows as usize * n as usize);
    plan.matmul_f16(x, weight, out, rows, n, k);
    plan.add_bias_f16_inplace(out, bias, rows, n);
    assert(plan.values() =~= before.push(
        linear(before[x as int], before[weight as int], before[bias as int], rows, n, k),
    ));
    out
}

/// `x` transposed, into a fresh buffer.
pub fn run_transposed(plan: &mut Plan, x: usize, rows: u32, cols: u32) -> (out: usize)
    requires
        old(plan).wf(),
        holds(*old(plan), x, rows * cols),
    ensures
        final(plan).wf(),
        out == old(plan).values().len(),
        final(plan).sizes() == old(plan).sizes().push((rows * cols) as usize),
        final(plan).values() == old(plan).values().push(
            transpose_f16(old(plan).values()[x as int], rows, cols),
        ),
{
    let ghost before = plan.values();
    let out: usize = plan.zeros(rows as usize * cols as usize);
    plan.transpose_f16(x, out, rows, cols);
    assert(plan.values() =~= before.push(transpose_f16(before[x as int], rows, cols)));
    out
}

/// The leaky rectifier of `x`, into a fresh buffer.
pub fn run_leaky(plan: &mut Plan, x: usize, n: u32, slope: Scalar) -> (out: usize)
    requires
        old(plan).wf(),
        holds(*old(plan), x, n as int),
    ensures
        final(plan).wf(),
        out == old(plan).values().len(),
        final(plan).sizes() == old(plan).sizes().push(n as usize),
        final(plan).values() == old(plan).values().push(
            leaky_relu_f16(old(plan).values()[x as int], n, slope),
        ),
{
    let ghost before = plan.values();
    let out: usize = plan.zeros(n as usize);
    plan.leaky_relu_f16(x, out, n, slope);
    assert(plan.values() =~= before.push(leaky_relu_f16(before[x as int], n, slope)));
    out
}

/// `a + b`, into a fresh buffer.
pub fn run_sum(plan: &mut Plan, a: usize, b: usize, n: u32) -> (out: usize)
    requires
        old(plan).wf(),
        holds(*old(plan), a, n as int),
        holds(*old(plan), b, n as int),
    ensures
        final(plan).wf(),
        out == old(plan).values().len(),
        final(plan).sizes() == old(plan).sizes().push(n as usize),
        final(plan).values() == old(plan).values().push(
            add_f16(old(plan).values()[a as int], old(plan).values()[b as int], n),
        ),
{
    let ghost before = plan.values();
    let out: usize = plan.zeros(n as usize);
    plan.add_f16(a, b, out, n);
    assert(plan.values() =~= before.push(add_f16(before[a as int], before[b as int], n)));
    out
}

/// `x` times a number, into a fresh buffer.
pub fn run_scaled(plan: &mut Plan, x: usize, n: u32, scale: Scalar) -> (out: usize)
    requires
        old(plan).wf(),
        holds(*old(plan), x, n as int),
    ensures
        final(plan).wf(),
        out == old(plan).values().len(),
        final(plan).sizes() == old(plan).sizes().push(n as usize),
        final(plan).values() == old(plan).values().push(
            scale_f16(old(plan).values()[x as int], n, scale),
        ),
{
    let ghost before = plan.values();
    let out: usize = plan.zeros(n as usize);
    plan.scale_f16(x, out, n, scale);
    assert(plan.values() =~= before.push(scale_f16(before[x as int], n, scale)));
    out
}

/// Layer normalisation of half-precision rows, by way of single precision.
pub open spec fn widened_norm(x: Term, weight: Term, bias: Term, rows: u32, dim: u32, eps: Scalar) -> Term {
    layer_norm_f32in(copy_f16_to_f32(x, (rows * dim) as u32), weight, bias, rows, dim, eps)
}

/// Layer normalisation of half-precision rows, into a fresh buffer.
pub fn run_widened_norm(
    plan: &mut Plan,
    x: usize,
    weight: usize,
    bias: usize,
    rows: u32,
    dim: u32,
    eps: Scalar,
) -> (out: usize)
    requires
        old(plan).wf(),
        rows * dim <= u32::MAX,
        holds(*old(plan), x, rows * dim),
        holds(*old(plan), weight, dim as int),
        holds(*old(plan), bias, dim as int),
    ensures
        final(plan).wf(),
        extends(*old(plan), *final(plan)),
        final(plan).values().len() == old(plan).values().len() + 2,
        out == old(plan).values().len() + 1,
        final(plan).sizes()[out as int] == rows * dim,
        final(plan).values()[out as int] == widened_norm(
            old(plan).values()[x as int],
            old(plan).values()[weight as int],
            old(plan).values()[bias as int],
            rows,
            dim,
            eps,
        ),
{
    let n: u32 = rows * dim;
    let wide: usize = plan.zeros(n as usize);
    plan.copy_f16_to_f32(x, wide, n);
    let out: usize = plan.zeros(n as usize);
    plan.layer_norm_f32in(wide, weight, bias, out, rows, dim, eps);
    out
}

/// The shape of a convolution over channel-first data.
#[derive(Clone, Copy, Debug, PartialEq, Eq, Structural)]
pub struct ConvShape {
    pub input: u32,
    pub output: u32,
    pub kernel: u32,
    pub stride: u32,
    pub padding: u32,
    pub dilation: u32,
}

/// A convolution over channel-first data.
pub open spec fn conv1d(x: Term, weight: Term, bias: Term, shape: ConvShape, frames: u32, out_frames: u32) -> Term {
    conv1d_general_f16(
        x,
        weight,
        bias,
        shape.input,
        shape.output,
        frames,
        out_frames,
        shape.kernel,
        shape.stride,
        shape.padding,
        shape.dilation,
    )
}

/// A convolution over channel-first data, into a fresh buffer.
pub fn run_conv1d(
    plan: &mut Plan,
    x: usize,
    weight: usize,
    bias: usize,
    shape: ConvShape,
    frames: u32,
    out_frames: u32,
) -> (out: usize)
    requires
        old(plan).wf(),
        holds(*old(plan), x, shape.input * frames),
        holds(*old(plan), weight, shape.output * shape.input * shape.kernel),
        holds(*old(plan), bias, shape.output as int),
        shape.output * out_frames <= usize::MAX,
    ensures
        final(plan).wf(),
        out == old(plan).values().len(),
        final(plan).sizes() == old(plan).sizes().push((shape.output * out_frames) as usize),
        final(plan).values() == old(plan).values().push(
            conv1d(
                old(plan).values()[x as int],
                old(plan).values()[weight as int],
                old(plan).values()[bias as int],
                shape,
                frames,
                out_frames,
            ),
        ),
{
    let ghost before = plan.values();
    let out: usize = plan.zeros(shape.output as usize * out_frames as usize);
    plan.conv1d_general_f16(
        x,
        weight,
        bias,
        out,
        shape.input,
        shape.output,
        frames,
        out_frames,
        shape.kernel,
        shape.stride,
        shape.padding,
        shape.dilation,
    );
    assert(plan.values() =~= before.push(
        conv1d(
            before[x as int],
            before[weight as int],
            before[bias as int],
            shape,
            frames,
            out_frames,
        ),
    ));
    out
}

/// A convolution as one matrix product over gathered receptive fields.
pub open spec fn unfolded_conv(x: Term, weight: Term, bias: Term, shape: ConvShape, frames: u32, out_frames: u32) -> Term {
    transpose_f16(
        linear(
            unfold_conv1d_f16(
                x,
                shape.input,
                frames,
                out_frames,
                shape.kernel,
                shape.stride,
                shape.padding,
                shape.dilation,
            ),
            weight,
            bias,
            out_frames,
            shape.output,
            (shape.input * shape.kernel) as u32,
        ),
        out_frames,
        shape.output,
    )
}

/// A convolution as one matrix product, into a fresh buffer.
pub fn run_unfolded_conv(
    plan: &mut Plan,
    x: usize,
    weight: usize,
    bias: usize,
    shape: ConvShape,
    frames: u32,
    out_frames: u32,
) -> (out: usize)
    requires
        old(plan).wf(),
        shape.input * shape.kernel <= u32::MAX,
        out_frames * (shape.input * shape.kernel) <= usize::MAX,
        holds(*old(plan), x, shape.input * frames),
        holds(*old(plan), weight, shape.output * shape.input * shape.kernel),
        holds(*old(plan), bias, shape.output as int),
        shape.output * out_frames <= usize::MAX,
    ensures
        final(plan).wf(),
        extends(*old(plan), *final(plan)),
        final(plan).values().len() == old(plan).values().len() + 3,
        out == old(plan).values().len() + 2,
        final(plan).sizes()[out as int] == shape.output * out_frames,
        final(plan).values()[out as int] == unfolded_conv(
            old(plan).values()[x as int],
            old(plan).values()[weight as int],
            old(plan).values()[bias as int],
            shape,
            frames,
            out_frames,
        ),
{
    let width: u32 = shape.input * shape.kernel;
    proof {
        lemma_mul_assoc(shape.output as int, shape.input as int, shape.kernel as int);
        lemma_mul_comm(shape.output as int, out_frames as int);
    }
    let unfolded: usize = plan.zeros(out_frames as usize * width as usize);
    plan.unfold_conv1d_f16(
        x,
        unfolded,
        shape.input,
        frames,
        out_frames,
        shape.kernel,
        shape.stride,
        shape.padding,
        shape.dilation,
    );
    let rows: usize = run_linear(plan, unfolded, weight, bias, out_frames, shape.output, width);
    run_transposed(plan, rows, out_frames, shape.output)
}

} // verus!
