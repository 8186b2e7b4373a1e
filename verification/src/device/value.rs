//! The values kernels compute, as terms over the values they read.
use vstd::prelude::*;
use crate::device::{Scalar, Term};
use crate::device::kernels::Kernel;

verus! {

/// What [`Kernel::RmsNorm`] leaves in `out`.
pub open spec fn rms_norm(x: Term, weight: Term, n_rows: u32, dim: u32, eps: Scalar) -> Term {
    Term::Computed {
        kernel: Kernel::RmsNorm,
        port: 0,
        args: seq![x, weight],
        scalars: seq![Scalar::Count(n_rows), Scalar::Count(dim), eps],
    }
}

/// What [`Kernel::RmsNormF32in`] leaves in `out`.
pub open spec fn rms_norm_f32in(x: Term, weight: Term, n_rows: u32, dim: u32, eps: Scalar) -> Term {
    Term::Computed {
        kernel: Kernel::RmsNormF32in,
        port: 0,
        args: seq![x, weight],
        scalars: seq![Scalar::Count(n_rows), Scalar::Count(dim), eps],
    }
}

/// What [`Kernel::GemvF16`] leaves in `out`.
pub open spec fn gemv_f16(x: Term, weight: Term, n: u32, k: u32) -> Term {
    Term::Computed {
        kernel: Kernel::GemvF16,
        port: 0,
        args: seq![x, weight],
        scalars: seq![Scalar::Count(n), Scalar::Count(k)],
    }
}

/// What [`Kernel::GemvDualF16`] leaves in `out_a`.
pub open spec fn gemv_dual_f16_out_a(x: Term, weight_a: Term, weight_b: Term, n: u32, k: u32) -> Term {
    Term::Computed {
        kernel: Kernel::GemvDualF16,
        port: 0,
        args: seq![x, weight_a, weight_b],
        scalars: seq![Scalar::Count(n), Scalar::Count(k)],
    }
}

/// What [`Kernel::GemvDualF16`] leaves in `out_b`.
pub open spec fn gemv_dual_f16_out_b(x: Term, weight_a: Term, weight_b: Term, n: u32, k: u32) -> Term {
    Term::Computed {
        kernel: Kernel::GemvDualF16,
        port: 1,
        args: seq![x, weight_a, weight_b],
        scalars: seq![Scalar::Count(n), Scalar::Count(k)],
    }
}

/// What [`Kernel::MatmulF16`] leaves in `out`.
pub open spec fn matmul_f16(a: Term, b: Term, m: u32, n: u32, k: u32) -> Term {
    Term::Computed {
        kernel: Kernel::MatmulF16,
        port: 0,
        args: seq![a, b],
        scalars: seq![Scalar::Count(m), Scalar::Count(n), Scalar::Count(k)],
    }
}

/// What [`Kernel::AddBiasF16Inplace`] leaves in `x`.
pub open spec fn add_bias_f16_inplace(x: Term, bias: Term, n_rows: u32, dim: u32) -> Term {
    Term::Computed {
        kernel: Kernel::AddBiasF16Inplace,
        port: 0,
        args: seq![x, bias],
        scalars: seq![Scalar::Count(n_rows), Scalar::Count(dim)],
    }
}

/// What [`Kernel::RopeNeox`] leaves in `x`.
pub open spec fn rope_neox(x: Term, seq_len: u32, n_heads: u32, head_dim: u32, pos: u32, theta_base: Scalar) -> Term {
    Term::Computed {
        kernel: Kernel::RopeNeox,
        port: 0,
        args: seq![x],
        scalars: seq![Scalar::Count(seq_len), Scalar::Count(n_heads), Scalar::Count(head_dim), Scalar::Count(pos), theta_base],
    }
}

/// What [`Kernel::CopyF16At`] leaves in `dst`.
pub open spec fn copy_f16_at(src: Term, dst: Term, n: u32, offset: usize) -> Term {
    Term::Computed {
        kernel: Kernel::CopyF16At,
        port: 0,
        args: seq![src, dst],
        scalars: seq![Scalar::Count(n), Scalar::Size(offset)],
    }
}

/// What [`Kernel::MhaFused`] leaves in `out`.
pub open spec fn mha_fused(q: Term, k: Term, v: Term, head_dim: u32, n_heads: u32, n_kv_heads: u32, seq_len: u32, kv_len: u32, pos_offset: u32) -> Term {
    Term::Computed {
        kernel: Kernel::MhaFused,
        port: 0,
        args: seq![q, k, v],
        scalars: seq![Scalar::Count(head_dim), Scalar::Count(n_heads), Scalar::Count(n_kv_heads), Scalar::Count(seq_len), Scalar::Count(kv_len), Scalar::Count(pos_offset)],
    }
}

/// What [`Kernel::AddInplaceF32F16`] leaves in `hidden`.
pub open spec fn add_inplace_f32_f16(hidden: Term, delta: Term, n: u32) -> Term {
    Term::Computed {
        kernel: Kernel::AddInplaceF32F16,
        port: 0,
        args: seq![hidden, delta],
        scalars: seq![Scalar::Count(n)],
    }
}

/// What [`Kernel::Silu`] leaves in `out`.
pub open spec fn silu(gate: Term, up: Term, n: u32) -> Term {
    Term::Computed {
        kernel: Kernel::Silu,
        port: 0,
        args: seq![gate, up],
        scalars: seq![Scalar::Count(n)],
    }
}

/// What [`Kernel::GatherRowsF16`] leaves in `out`.
pub open spec fn gather_rows_f16(table: Term, ids: Term, n_rows: u32, dim: u32) -> Term {
    Term::Computed {
        kernel: Kernel::GatherRowsF16,
        port: 0,
        args: seq![table, ids],
        scalars: seq![Scalar::Count(n_rows), Scalar::Count(dim)],
    }
}

/// What [`Kernel::SiluActF16`] leaves in `out`.
pub open spec fn silu_act_f16(x: Term, n: u32) -> Term {
    Term::Computed {
        kernel: Kernel::SiluActF16,
        port: 0,
        args: seq![x],
        scalars: seq![Scalar::Count(n)],
    }
}

/// What [`Kernel::ArgmaxF16`] leaves in `out`.
pub open spec fn argmax_f16(x: Term, n: u32) -> Term {
    Term::Computed {
        kernel: Kernel::ArgmaxF16,
        port: 0,
        args: seq![x],
        scalars: seq![Scalar::Count(n)],
    }
}

/// What [`Kernel::CopyF32ToF16`] leaves in `dst`.
pub open spec fn copy_f32_to_f16(src: Term, n: u32) -> Term {
    Term::Computed {
        kernel: Kernel::CopyF32ToF16,
        port: 0,
        args: seq![src],
        scalars: seq![Scalar::Count(n)],
    }
}

/// What [`Kernel::CopyF16ToF32`] leaves in `dst`.
pub open spec fn copy_f16_to_f32(src: Term, n: u32) -> Term {
    Term::Computed {
        kernel: Kernel::CopyF16ToF32,
        port: 0,
        args: seq![src],
        scalars: seq![Scalar::Count(n)],
    }
}

/// What [`Kernel::AddF16`] leaves in `out`.
pub open spec fn add_f16(a: Term, b: Term, n: u32) -> Term {
    Term::Computed {
        kernel: Kernel::AddF16,
        port: 0,
        args: seq![a, b],
        scalars: seq![Scalar::Count(n)],
    }
}

/// What [`Kernel::MulF16Broadcast`] leaves in `out`.
pub open spec fn mul_f16_broadcast(a: Term, b: Term, n: u32, stride: u32) -> Term {
    Term::Computed {
        kernel: Kernel::MulF16Broadcast,
        port: 0,
        args: seq![a, b],
        scalars: seq![Scalar::Count(n), Scalar::Count(stride)],
    }
}

/// What [`Kernel::Conv1dCausalF16`] leaves in `out`.
pub open spec fn conv1d_causal_f16(x: Term, weight: Term, bias: Term, in_channels: u32, out_channels: u32, seq_len: u32, kernel_size: u32, dilation: u32, groups: u32) -> Term {
    Term::Computed {
        kernel: Kernel::Conv1dCausalF16,
        port: 0,
        args: seq![x, weight, bias],
        scalars: seq![Scalar::Count(in_channels), Scalar::Count(out_channels), Scalar::Count(seq_len), Scalar::Count(kernel_size), Scalar::Count(dilation), Scalar::Count(groups)],
    }
}

/// What [`Kernel::ConvTranspose1dCausalF16`] leaves in `out`.
pub open spec fn conv_transpose1d_causal_f16(x: Term, weight: Term, bias: Term, in_channels: u32, out_channels: u32, input_len: u32, kernel_size: u32, stride: u32) -> Term {
    Term::Computed {
        kernel: Kernel::ConvTranspose1dCausalF16,
        port: 0,
        args: seq![x, weight, bias],
        scalars: seq![Scalar::Count(in_channels), Scalar::Count(out_channels), Scalar::Count(input_len), Scalar::Count(kernel_size), Scalar::Count(stride)],
    }
}

/// What [`Kernel::TransposeF16`] leaves in `out`.
pub open spec fn transpose_f16(x: Term, rows: u32, cols: u32) -> Term {
    Term::Computed {
        kernel: Kernel::TransposeF16,
        port: 0,
        args: seq![x],
        scalars: seq![Scalar::Count(rows), Scalar::Count(cols)],
    }
}

/// What [`Kernel::LayerNormF32in`] leaves in `out`.
pub open spec fn layer_norm_f32in(x: Term, weight: Term, bias: Term, n_rows: u32, dim: u32, eps: Scalar) -> Term {
    Term::Computed {
        kernel: Kernel::LayerNormF32in,
        port: 0,
        args: seq![x, weight, bias],
        scalars: seq![Scalar::Count(n_rows), Scalar::Count(dim), eps],
    }
}

/// What [`Kernel::GeluErfF16`] leaves in `out`.
pub open spec fn gelu_erf_f16(x: Term, n: u32) -> Term {
    Term::Computed {
        kernel: Kernel::GeluErfF16,
        port: 0,
        args: seq![x],
        scalars: seq![Scalar::Count(n)],
    }
}

/// What [`Kernel::MhaFusedScaled`] leaves in `out`.
pub open spec fn mha_fused_scaled(q: Term, k: Term, v: Term, head_dim: u32, n_heads: u32, n_kv_heads: u32, seq_len: u32, kv_len: u32, pos_offset: u32, window: u32, scale: Scalar, softcap: Scalar) -> Term {
    Term::Computed {
        kernel: Kernel::MhaFusedScaled,
        port: 0,
        args: seq![q, k, v],
        scalars: seq![Scalar::Count(head_dim), Scalar::Count(n_heads), Scalar::Count(n_kv_heads), Scalar::Count(seq_len), Scalar::Count(kv_len), Scalar::Count(pos_offset), Scalar::Count(window), scale, softcap],
    }
}

/// What [`Kernel::Elu`] leaves in `values`.
pub open spec fn elu(values: Term, n: u32) -> Term {
    Term::Computed {
        kernel: Kernel::Elu,
        port: 0,
        args: seq![values],
        scalars: seq![Scalar::Count(n)],
    }
}

/// What [`Kernel::CopyBuffer`] leaves in `dst`.
pub open spec fn copy_buffer(src: Term, n: usize) -> Term {
    Term::Computed {
        kernel: Kernel::CopyBuffer,
        port: 0,
        args: seq![src],
        scalars: seq![Scalar::Size(n)],
    }
}

/// What [`Kernel::UnfoldCausalStride`] leaves in `output`.
pub open spec fn unfold_causal_stride(input: Term, channels: u32, input_len: u32, output_len: u32, kernel_size: u32, stride: u32, dilation: u32) -> Term {
    Term::Computed {
        kernel: Kernel::UnfoldCausalStride,
        port: 0,
        args: seq![input],
        scalars: seq![Scalar::Count(channels), Scalar::Count(input_len), Scalar::Count(output_len), Scalar::Count(kernel_size), Scalar::Count(stride), Scalar::Count(dilation)],
    }
}

/// What [`Kernel::NearestCodebook`] leaves in `indices`.
pub open spec fn nearest_codebook(residual: Term, codebook: Term, frames: u32, entries: u32, dim: u32) -> Term {
    Term::Computed {
        kernel: Kernel::NearestCodebook,
        port: 0,
        args: seq![residual, codebook],
        scalars: seq![Scalar::Count(frames), Scalar::Count(entries), Scalar::Count(dim)],
    }
}

/// What [`Kernel::SubtractCodebook`] leaves in `residual`.
pub open spec fn subtract_codebook(residual: Term, codebook: Term, indices: Term, frames: u32, dim: u32) -> Term {
    Term::Computed {
        kernel: Kernel::SubtractCodebook,
        port: 0,
        args: seq![residual, codebook, indices],
        scalars: seq![Scalar::Count(frames), Scalar::Count(dim)],
    }
}

/// What [`Kernel::UnfoldReflect`] leaves in `output`.
pub open spec fn unfold_reflect(input: Term, channels: u32, seq_len: u32, kernel_size: u32, dilation: u32) -> Term {
    Term::Computed {
        kernel: Kernel::UnfoldReflect,
        port: 0,
        args: seq![input],
        scalars: seq![Scalar::Count(channels), Scalar::Count(seq_len), Scalar::Count(kernel_size), Scalar::Count(dilation)],
    }
}

/// What [`Kernel::Relu`] leaves in `values`.
pub open spec fn relu(values: Term, n: u32) -> Term {
    Term::Computed {
        kernel: Kernel::Relu,
        port: 0,
        args: seq![values],
        scalars: seq![Scalar::Count(n)],
    }
}

/// What [`Kernel::Tanh`] leaves in `values`.
pub open spec fn tanh(values: Term, n: u32) -> Term {
    Term::Computed {
        kernel: Kernel::Tanh,
        port: 0,
        args: seq![values],
        scalars: seq![Scalar::Count(n)],
    }
}

/// What [`Kernel::Sigmoid`] leaves in `values`.
pub open spec fn sigmoid(values: Term, n: u32) -> Term {
    Term::Computed {
        kernel: Kernel::Sigmoid,
        port: 0,
        args: seq![values],
        scalars: seq![Scalar::Count(n)],
    }
}

/// What [`Kernel::ChannelMean`] leaves in `mean`.
pub open spec fn channel_mean(input: Term, channels: u32, seq_len: u32) -> Term {
    Term::Computed {
        kernel: Kernel::ChannelMean,
        port: 0,
        args: seq![input],
        scalars: seq![Scalar::Count(channels), Scalar::Count(seq_len)],
    }
}

/// What [`Kernel::ChannelScale`] leaves in `output`.
pub open spec fn channel_scale(input: Term, scale: Term, channels: u32, seq_len: u32) -> Term {
    Term::Computed {
        kernel: Kernel::ChannelScale,
        port: 0,
        args: seq![input, scale],
        scalars: seq![Scalar::Count(channels), Scalar::Count(seq_len)],
    }
}

/// What [`Kernel::AppendChannelBlock`] leaves in `output`.
pub open spec fn append_channel_block(input: Term, output: Term, input_channels: u32, output_channels: u32, channel_offset: u32, seq_len: u32) -> Term {
    Term::Computed {
        kernel: Kernel::AppendChannelBlock,
        port: 0,
        args: seq![input, output],
        scalars: seq![Scalar::Count(input_channels), Scalar::Count(output_channels), Scalar::Count(channel_offset), Scalar::Count(seq_len)],
    }
}

/// What [`Kernel::AppendContext`] leaves in `output`.
pub open spec fn append_context(input: Term, mean: Term, stddev: Term, channels: u32, seq_len: u32) -> Term {
    Term::Computed {
        kernel: Kernel::AppendContext,
        port: 0,
        args: seq![input, mean, stddev],
        scalars: seq![Scalar::Count(channels), Scalar::Count(seq_len)],
    }
}

/// What [`Kernel::ChannelStats`] leaves in `mean`.
pub open spec fn channel_stats_mean(input: Term, channels: u32, seq_len: u32) -> Term {
    Term::Computed {
        kernel: Kernel::ChannelStats,
        port: 0,
        args: seq![input],
        scalars: seq![Scalar::Count(channels), Scalar::Count(seq_len)],
    }
}

/// What [`Kernel::ChannelStats`] leaves in `stddev`.
pub open spec fn channel_stats_stddev(input: Term, channels: u32, seq_len: u32) -> Term {
    Term::Computed {
        kernel: Kernel::ChannelStats,
        port: 1,
        args: seq![input],
        scalars: seq![Scalar::Count(channels), Scalar::Count(seq_len)],
    }
}

/// What [`Kernel::WeightedChannelStats`] leaves in `mean`.
pub open spec fn weighted_channel_stats_mean(input: Term, weights: Term, channels: u32, seq_len: u32) -> Term {
    Term::Computed {
        kernel: Kernel::WeightedChannelStats,
        port: 0,
        args: seq![input, weights],
        scalars: seq![Scalar::Count(channels), Scalar::Count(seq_len)],
    }
}

/// What [`Kernel::WeightedChannelStats`] leaves in `stddev`.
pub open spec fn weighted_channel_stats_stddev(input: Term, weights: Term, channels: u32, seq_len: u32) -> Term {
    Term::Computed {
        kernel: Kernel::WeightedChannelStats,
        port: 1,
        args: seq![input, weights],
        scalars: seq![Scalar::Count(channels), Scalar::Count(seq_len)],
    }
}

/// What [`Kernel::SoftmaxChannels`] leaves in `values`.
pub open spec fn softmax_channels(values: Term, channels: u32, seq_len: u32) -> Term {
    Term::Computed {
        kernel: Kernel::SoftmaxChannels,
        port: 0,
        args: seq![values],
        scalars: seq![Scalar::Count(channels), Scalar::Count(seq_len)],
    }
}

/// What [`Kernel::CopyFrom`] leaves in `dst`.
pub open spec fn copy_from(src: Term, n: usize, offset: usize) -> Term {
    Term::Computed {
        kernel: Kernel::CopyFrom,
        port: 0,
        args: seq![src],
        scalars: seq![Scalar::Size(n), Scalar::Size(offset)],
    }
}

/// What [`Kernel::RmsNormF32inBf16`] leaves in `out`.
pub open spec fn rms_norm_f32in_bf16(x: Term, weight: Term, n_rows: u32, dim: u32, eps: Scalar) -> Term {
    Term::Computed {
        kernel: Kernel::RmsNormF32inBf16,
        port: 0,
        args: seq![x, weight],
        scalars: seq![Scalar::Count(n_rows), Scalar::Count(dim), eps],
    }
}

/// What [`Kernel::MatmulBf16`] leaves in `out`.
pub open spec fn matmul_bf16(a: Term, b: Term, m: u32, n: u32, k: u32) -> Term {
    Term::Computed {
        kernel: Kernel::MatmulBf16,
        port: 0,
        args: seq![a, b],
        scalars: seq![Scalar::Count(m), Scalar::Count(n), Scalar::Count(k)],
    }
}

/// What [`Kernel::GemvBf16`] leaves in `out`.
pub open spec fn gemv_bf16(x: Term, weight: Term, n: u32, k: u32) -> Term {
    Term::Computed {
        kernel: Kernel::GemvBf16,
        port: 0,
        args: seq![x, weight],
        scalars: seq![Scalar::Count(n), Scalar::Count(k)],
    }
}

/// What [`Kernel::GemvDualBf16`] leaves in `out_a`.
pub open spec fn gemv_dual_bf16_out_a(x: Term, weight_a: Term, weight_b: Term, n: u32, k: u32) -> Term {
    Term::Computed {
        kernel: Kernel::GemvDualBf16,
        port: 0,
        args: seq![x, weight_a, weight_b],
        scalars: seq![Scalar::Count(n), Scalar::Count(k)],
    }
}

/// What [`Kernel::GemvDualBf16`] leaves in `out_b`.
pub open spec fn gemv_dual_bf16_out_b(x: Term, weight_a: Term, weight_b: Term, n: u32, k: u32) -> Term {
    Term::Computed {
        kernel: Kernel::GemvDualBf16,
        port: 1,
        args: seq![x, weight_a, weight_b],
        scalars: seq![Scalar::Count(n), Scalar::Count(k)],
    }
}

/// What [`Kernel::AddInplaceF32Bf16`] leaves in `hidden`.
pub open spec fn add_inplace_f32_bf16(hidden: Term, delta: Term, n: u32) -> Term {
    Term::Computed {
        kernel: Kernel::AddInplaceF32Bf16,
        port: 0,
        args: seq![hidden, delta],
        scalars: seq![Scalar::Count(n)],
    }
}

/// What [`Kernel::SiluBf16`] leaves in `out`.
pub open spec fn silu_bf16(gate: Term, up: Term, n: u32) -> Term {
    Term::Computed {
        kernel: Kernel::SiluBf16,
        port: 0,
        args: seq![gate, up],
        scalars: seq![Scalar::Count(n)],
    }
}

/// What [`Kernel::SiluActBf16`] leaves in `out`.
pub open spec fn silu_act_bf16(x: Term, n: u32) -> Term {
    Term::Computed {
        kernel: Kernel::SiluActBf16,
        port: 0,
        args: seq![x],
        scalars: seq![Scalar::Count(n)],
    }
}

/// What [`Kernel::GatherRowsBf16`] leaves in `out`.
pub open spec fn gather_rows_bf16(table: Term, ids: Term, n_rows: u32, dim: u32) -> Term {
    Term::Computed {
        kernel: Kernel::GatherRowsBf16,
        port: 0,
        args: seq![table, ids],
        scalars: seq![Scalar::Count(n_rows), Scalar::Count(dim)],
    }
}

/// What [`Kernel::AddBiasBf16Inplace`] leaves in `x`.
pub open spec fn add_bias_bf16_inplace(x: Term, bias: Term, n_rows: u32, dim: u32) -> Term {
    Term::Computed {
        kernel: Kernel::AddBiasBf16Inplace,
        port: 0,
        args: seq![x, bias],
        scalars: seq![Scalar::Count(n_rows), Scalar::Count(dim)],
    }
}

/// What [`Kernel::CopyBf16ToF16`] leaves in `dst`.
pub open spec fn copy_bf16_to_f16(src: Term, n: u32) -> Term {
    Term::Computed {
        kernel: Kernel::CopyBf16ToF16,
        port: 0,
        args: seq![src],
        scalars: seq![Scalar::Count(n)],
    }
}

/// What [`Kernel::CopyF16ToBf16`] leaves in `dst`.
pub open spec fn copy_f16_to_bf16(src: Term, n: u32) -> Term {
    Term::Computed {
        kernel: Kernel::CopyF16ToBf16,
        port: 0,
        args: seq![src],
        scalars: seq![Scalar::Count(n)],
    }
}

/// What [`Kernel::CopyBf16ToF32`] leaves in `dst`.
pub open spec fn copy_bf16_to_f32(src: Term, n: u32) -> Term {
    Term::Computed {
        kernel: Kernel::CopyBf16ToF32,
        port: 0,
        args: seq![src],
        scalars: seq![Scalar::Count(n)],
    }
}

/// What [`Kernel::RopeNeoxFreqs`] leaves in `x`.
pub open spec fn rope_neox_freqs(x: Term, freq_factors: Term, seq_len: u32, n_heads: u32, head_dim: u32, pos: u32, theta_base: Scalar) -> Term {
    Term::Computed {
        kernel: Kernel::RopeNeoxFreqs,
        port: 0,
        args: seq![x, freq_factors],
        scalars: seq![Scalar::Count(seq_len), Scalar::Count(n_heads), Scalar::Count(head_dim), Scalar::Count(pos), theta_base],
    }
}

/// What [`Kernel::MhaNaiveFull`] leaves in `out`.
pub open spec fn mha_naive_full(q: Term, k: Term, v: Term, head_dim: u32, n_heads: u32, n_kv_heads: u32, seq_len: u32, kv_len: u32, scale: Scalar, softcap: Scalar) -> Term {
    Term::Computed {
        kernel: Kernel::MhaNaiveFull,
        port: 0,
        args: seq![q, k, v],
        scalars: seq![Scalar::Count(head_dim), Scalar::Count(n_heads), Scalar::Count(n_kv_heads), Scalar::Count(seq_len), Scalar::Count(kv_len), scale, softcap],
    }
}

/// What [`Kernel::MhaRelativeFull`] leaves in `out`.
pub open spec fn mha_relative_full(q: Term, k: Term, v: Term, pos: Term, bias_u: Term, bias_v: Term, head_dim: u32, n_heads: u32, seq_len: u32) -> Term {
    Term::Computed {
        kernel: Kernel::MhaRelativeFull,
        port: 0,
        args: seq![q, k, v, pos, bias_u, bias_v],
        scalars: seq![Scalar::Count(head_dim), Scalar::Count(n_heads), Scalar::Count(seq_len)],
    }
}

/// What [`Kernel::Conv1dPaddedF16`] leaves in `out`.
pub open spec fn conv1d_padded_f16(x: Term, weight: Term, bias: Term, in_channels: u32, out_channels: u32, seq_len: u32, kernel_size: u32, left_padding: u32) -> Term {
    Term::Computed {
        kernel: Kernel::Conv1dPaddedF16,
        port: 0,
        args: seq![x, weight, bias],
        scalars: seq![Scalar::Count(in_channels), Scalar::Count(out_channels), Scalar::Count(seq_len), Scalar::Count(kernel_size), Scalar::Count(left_padding)],
    }
}

/// What [`Kernel::LeakyReluF16`] leaves in `out`.
pub open spec fn leaky_relu_f16(x: Term, n: u32, slope: Scalar) -> Term {
    Term::Computed {
        kernel: Kernel::LeakyReluF16,
        port: 0,
        args: seq![x],
        scalars: seq![Scalar::Count(n), slope],
    }
}

/// What [`Kernel::RepeatInterleaveF16`] leaves in `out`.
pub open spec fn repeat_interleave_f16(x: Term, channels: u32, frames: u32, repeats: u32) -> Term {
    Term::Computed {
        kernel: Kernel::RepeatInterleaveF16,
        port: 0,
        args: seq![x],
        scalars: seq![Scalar::Count(channels), Scalar::Count(frames), Scalar::Count(repeats)],
    }
}

/// What [`Kernel::ScaleF16`] leaves in `out`.
pub open spec fn scale_f16(x: Term, n: u32, scale: Scalar) -> Term {
    Term::Computed {
        kernel: Kernel::ScaleF16,
        port: 0,
        args: seq![x],
        scalars: seq![Scalar::Count(n), scale],
    }
}

/// What [`Kernel::UnfoldConv1dF16`] leaves in `output`.
pub open spec fn unfold_conv1d_f16(input: Term, channels: u32, input_len: u32, output_len: u32, kernel_size: u32, stride: u32, padding: u32, dilation: u32) -> Term {
    Term::Computed {
        kernel: Kernel::UnfoldConv1dF16,
        port: 0,
        args: seq![input],
        scalars: seq![Scalar::Count(channels), Scalar::Count(input_len), Scalar::Count(output_len), Scalar::Count(kernel_size), Scalar::Count(stride), Scalar::Count(padding), Scalar::Count(dilation)],
    }
}

/// What [`Kernel::ConvTranspose1dGeneralF16`] leaves in `out`.
pub open spec fn conv_transpose1d_general_f16(x: Term, weight: Term, bias: Term, in_channels: u32, out_channels: u32, input_len: u32, output_len: u32, kernel_size: u32, stride: u32, padding: u32) -> Term {
    Term::Computed {
        kernel: Kernel::ConvTranspose1dGeneralF16,
        port: 0,
        args: seq![x, weight, bias],
        scalars: seq![Scalar::Count(in_channels), Scalar::Count(out_channels), Scalar::Count(input_len), Scalar::Count(output_len), Scalar::Count(kernel_size), Scalar::Count(stride), Scalar::Count(padding)],
    }
}

/// What [`Kernel::SnakeF16`] leaves in `out`.
pub open spec fn snake_f16(x: Term, alpha: Term, channels: u32, frames: u32) -> Term {
    Term::Computed {
        kernel: Kernel::SnakeF16,
        port: 0,
        args: seq![x, alpha],
        scalars: seq![Scalar::Count(channels), Scalar::Count(frames)],
    }
}

/// What [`Kernel::EluF16`] leaves in `out`.
pub open spec fn elu_f16(x: Term, n: u32) -> Term {
    Term::Computed {
        kernel: Kernel::EluF16,
        port: 0,
        args: seq![x],
        scalars: seq![Scalar::Count(n)],
    }
}

/// What [`Kernel::ReflectionPadLeftF16`] leaves in `out`.
pub open spec fn reflection_pad_left_f16(x: Term, channels: u32, frames: u32) -> Term {
    Term::Computed {
        kernel: Kernel::ReflectionPadLeftF16,
        port: 0,
        args: seq![x],
        scalars: seq![Scalar::Count(channels), Scalar::Count(frames)],
    }
}

/// What [`Kernel::ThirdF16`] leaves in `x`.
pub open spec fn third_f16(x: Term, n: u32) -> Term {
    Term::Computed {
        kernel: Kernel::ThirdF16,
        port: 0,
        args: seq![x],
        scalars: seq![Scalar::Count(n)],
    }
}

/// What [`Kernel::LstmCellF16`] leaves in `hidden`.
pub open spec fn lstm_cell_f16_hidden(input_gates: Term, hidden_gates: Term, bias_ih: Term, bias_hh: Term, hidden: Term, cell: Term, output: Term, hidden_size: u32, in_step: u32, out_step: u32) -> Term {
    Term::Computed {
        kernel: Kernel::LstmCellF16,
        port: 0,
        args: seq![input_gates, hidden_gates, bias_ih, bias_hh, hidden, cell, output],
        scalars: seq![Scalar::Count(hidden_size), Scalar::Count(in_step), Scalar::Count(out_step)],
    }
}

/// What [`Kernel::LstmCellF16`] leaves in `cell`.
pub open spec fn lstm_cell_f16_cell(input_gates: Term, hidden_gates: Term, bias_ih: Term, bias_hh: Term, hidden: Term, cell: Term, output: Term, hidden_size: u32, in_step: u32, out_step: u32) -> Term {
    Term::Computed {
        kernel: Kernel::LstmCellF16,
        port: 1,
        args: seq![input_gates, hidden_gates, bias_ih, bias_hh, hidden, cell, output],
        scalars: seq![Scalar::Count(hidden_size), Scalar::Count(in_step), Scalar::Count(out_step)],
    }
}

/// What [`Kernel::LstmCellF16`] leaves in `output`.
pub open spec fn lstm_cell_f16_output(input_gates: Term, hidden_gates: Term, bias_ih: Term, bias_hh: Term, hidden: Term, cell: Term, output: Term, hidden_size: u32, in_step: u32, out_step: u32) -> Term {
    Term::Computed {
        kernel: Kernel::LstmCellF16,
        port: 2,
        args: seq![input_gates, hidden_gates, bias_ih, bias_hh, hidden, cell, output],
        scalars: seq![Scalar::Count(hidden_size), Scalar::Count(in_step), Scalar::Count(out_step)],
    }
}

/// What [`Kernel::Conv1dGeneralF16`] leaves in `out`.
pub open spec fn conv1d_general_f16(x: Term, weight: Term, bias: Term, in_channels: u32, out_channels: u32, input_len: u32, output_len: u32, kernel_size: u32, stride: u32, padding: u32, dilation: u32) -> Term {
    Term::Computed {
        kernel: Kernel::Conv1dGeneralF16,
        port: 0,
        args: seq![x, weight, bias],
        scalars: seq![Scalar::Count(in_channels), Scalar::Count(out_channels), Scalar::Count(input_len), Scalar::Count(output_len), Scalar::Count(kernel_size), Scalar::Count(stride), Scalar::Count(padding), Scalar::Count(dilation)],
    }
}

/// What [`Kernel::InstanceNormAffineF16`] leaves in `out`.
pub open spec fn instance_norm_affine_f16(x: Term, gamma: Term, beta: Term, channels: u32, frames: u32, eps: Scalar) -> Term {
    Term::Computed {
        kernel: Kernel::InstanceNormAffineF16,
        port: 0,
        args: seq![x, gamma, beta],
        scalars: seq![Scalar::Count(channels), Scalar::Count(frames), eps],
    }
}

/// What [`Kernel::ConvTranspose1dDepthwiseF16`] leaves in `out`.
pub open spec fn conv_transpose1d_depthwise_f16(x: Term, weight: Term, bias: Term, channels: u32, input_len: u32, output_len: u32, kernel_size: u32, stride: u32, padding: u32) -> Term {
    Term::Computed {
        kernel: Kernel::ConvTranspose1dDepthwiseF16,
        port: 0,
        args: seq![x, weight, bias],
        scalars: seq![Scalar::Count(channels), Scalar::Count(input_len), Scalar::Count(output_len), Scalar::Count(kernel_size), Scalar::Count(stride), Scalar::Count(padding)],
    }
}

/// What [`Kernel::UnfoldAdjacentF16`] leaves in `out`.
pub open spec fn unfold_adjacent_f16(x: Term, channels: u32, frames: u32, offset: i32) -> Term {
    Term::Computed {
        kernel: Kernel::UnfoldAdjacentF16,
        port: 0,
        args: seq![x],
        scalars: seq![Scalar::Count(channels), Scalar::Count(frames), Scalar::Shift(offset)],
    }
}

/// What [`Kernel::ScatterConvTransposePhaseF16`] leaves in `output`.
pub open spec fn scatter_conv_transpose_phase_f16(rows: Term, bias: Term, output: Term, frames: u32, channels: u32, stride: u32, phase: u32) -> Term {
    Term::Computed {
        kernel: Kernel::ScatterConvTransposePhaseF16,
        port: 0,
        args: seq![rows, bias, output],
        scalars: seq![Scalar::Count(frames), Scalar::Count(channels), Scalar::Count(stride), Scalar::Count(phase)],
    }
}

/// What [`Kernel::JoinRows`] leaves in `out`.
pub open spec fn join_rows(a: Term, b: Term, n_rows: u32, width_a: u32, width_b: u32) -> Term {
    Term::Computed {
        kernel: Kernel::JoinRows,
        port: 0,
        args: seq![a, b],
        scalars: seq![Scalar::Count(n_rows), Scalar::Count(width_a), Scalar::Count(width_b)],
    }
}

/// What [`Kernel::AppendRow`] leaves in `out`.
pub open spec fn append_row(a: Term, row: Term, n_rows: u32, width_a: u32, width_b: u32) -> Term {
    Term::Computed {
        kernel: Kernel::AppendRow,
        port: 0,
        args: seq![a, row],
        scalars: seq![Scalar::Count(n_rows), Scalar::Count(width_a), Scalar::Count(width_b)],
    }
}

/// What [`Kernel::RepeatRows`] leaves in `out`.
pub open spec fn repeat_rows(x: Term, counts: Term, n_rows: u32, width: u32, total: u32) -> Term {
    Term::Computed {
        kernel: Kernel::RepeatRows,
        port: 0,
        args: seq![x, counts],
        scalars: seq![Scalar::Count(n_rows), Scalar::Count(width), Scalar::Count(total)],
    }
}

/// What [`Kernel::EmbedTokensF32`] leaves in `out`.
pub open spec fn embed_tokens_f32(words: Term, positions: Term, kinds: Term, ids: Term, n_rows: u32, dim: u32) -> Term {
    Term::Computed {
        kernel: Kernel::EmbedTokensF32,
        port: 0,
        args: seq![words, positions, kinds, ids],
        scalars: seq![Scalar::Count(n_rows), Scalar::Count(dim)],
    }
}

/// What [`Kernel::StyleAffine`] leaves in `gamma`.
pub open spec fn style_affine_gamma(weight: Term, bias: Term, style: Term, channels: u32, style_dim: u32) -> Term {
    Term::Computed {
        kernel: Kernel::StyleAffine,
        port: 0,
        args: seq![weight, bias, style],
        scalars: seq![Scalar::Count(channels), Scalar::Count(style_dim)],
    }
}

/// What [`Kernel::StyleAffine`] leaves in `beta`.
pub open spec fn style_affine_beta(weight: Term, bias: Term, style: Term, channels: u32, style_dim: u32) -> Term {
    Term::Computed {
        kernel: Kernel::StyleAffine,
        port: 1,
        args: seq![weight, bias, style],
        scalars: seq![Scalar::Count(channels), Scalar::Count(style_dim)],
    }
}

/// What [`Kernel::StyleLayerNorm`] leaves in `hidden`.
pub open spec fn style_layer_norm(hidden: Term, weight: Term, bias: Term, style: Term, n_rows: u32, channels: u32, style_dim: u32, eps: Scalar) -> Term {
    Term::Computed {
        kernel: Kernel::StyleLayerNorm,
        port: 0,
        args: seq![hidden, weight, bias, style],
        scalars: seq![Scalar::Count(n_rows), Scalar::Count(channels), Scalar::Count(style_dim), eps],
    }
}

/// What [`Kernel::PhaseWeight`] leaves in `out`.
pub open spec fn phase_weight(weight: Term, in_channels: u32, out_channels: u32, kernel_size: u32, stride: u32, padding: u32, phase: u32) -> Term {
    Term::Computed {
        kernel: Kernel::PhaseWeight,
        port: 0,
        args: seq![weight],
        scalars: seq![Scalar::Count(in_channels), Scalar::Count(out_channels), Scalar::Count(kernel_size), Scalar::Count(stride), Scalar::Count(padding), Scalar::Count(phase)],
    }
}

/// What [`Kernel::ReluBf16`] leaves in `out`.
pub open spec fn relu_bf16(x: Term, n: u32) -> Term {
    Term::Computed {
        kernel: Kernel::ReluBf16,
        port: 0,
        args: seq![x],
        scalars: seq![Scalar::Count(n)],
    }
}

/// What [`Kernel::AddBf16`] leaves in `out`.
pub open spec fn add_bf16(a: Term, b: Term, n: u32) -> Term {
    Term::Computed {
        kernel: Kernel::AddBf16,
        port: 0,
        args: seq![a, b],
        scalars: seq![Scalar::Count(n)],
    }
}

/// What [`Kernel::OnesBf16`] leaves in `out`.
pub open spec fn ones_bf16(n: u32) -> Term {
    Term::Computed {
        kernel: Kernel::OnesBf16,
        port: 0,
        args: seq![],
        scalars: seq![Scalar::Count(n)],
    }
}

/// What [`Kernel::ModulateBf16Batched`] leaves in `out`.
pub open spec fn modulate_bf16_batched(x: Term, modulation: Term, n_rows: u32, dim: u32, parts: u32) -> Term {
    Term::Computed {
        kernel: Kernel::ModulateBf16Batched,
        port: 0,
        args: seq![x, modulation],
        scalars: seq![Scalar::Count(n_rows), Scalar::Count(dim), Scalar::Count(parts)],
    }
}

/// What [`Kernel::GatedResidualBf16Batched`] leaves in `x`.
pub open spec fn gated_residual_bf16_batched(x: Term, modulation: Term, delta: Term, n_rows: u32, dim: u32) -> Term {
    Term::Computed {
        kernel: Kernel::GatedResidualBf16Batched,
        port: 0,
        args: seq![x, modulation, delta],
        scalars: seq![Scalar::Count(n_rows), Scalar::Count(dim)],
    }
}

/// What [`Kernel::AddRowF32`] leaves in `x`.
pub open spec fn add_row_f32(x: Term, row: Term, n_rows: u32, dim: u32) -> Term {
    Term::Computed {
        kernel: Kernel::AddRowF32,
        port: 0,
        args: seq![x, row],
        scalars: seq![Scalar::Count(n_rows), Scalar::Count(dim)],
    }
}

} // verus!
