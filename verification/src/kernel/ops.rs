//! Launch geometries of the transformer and speaker kernels.
use vstd::prelude::*;
use crate::arith::{ceil_div, lemma_ceil_div};

verus! {

/// How a kernel is launched: blocks, threads per block, and shared memory.
#[derive(Clone, Copy, Debug, PartialEq, Eq)]
pub struct Launch {
    pub grid: (u32, u32, u32),
    pub block: (u32, u32, u32),
    pub shared_bytes: u32,
}

/// A grid of `x` by `y` blocks of one row of threads.
pub open spec fn grid_launch(x: u32, y: u32, threads: u32, shared_bytes: u32) -> Launch {
    Launch { grid: (x, y, 1), block: (threads, 1, 1), shared_bytes }
}

/// One thread per element, 256 to a block.
pub open spec fn flat_launch(n: int) -> Launch {
    grid_launch(ceil_div(n, 256) as u32, 1, 256, 0)
}

/// At most 256.
pub open spec fn capped(n: u32) -> u32 {
    if n < 256 {
        n
    } else {
        256
    }
}

/// One block per row, with as many threads as the row is wide, but at most
/// 256, and shared memory for each thread.
pub open spec fn row_launch(n_rows: u32, dim: u32, bytes_per_thread: u32) -> Launch {
    grid_launch(n_rows, 1, capped(dim), (capped(dim) * bytes_per_thread) as u32)
}

/// As many blocks of 256 threads per row as the row needs.
pub open spec fn tile_launch(n_rows: u32, width: int) -> Launch {
    grid_launch(n_rows, ceil_div(width, 256) as u32, 256, 0)
}

/// The least power of two that is not below `n`.
pub open spec fn power_above(n: int) -> int {
    power_from(n, 1)
}

/// The first number not below `n` among `p`, `2 * p`, `4 * p` and so on.
pub open spec fn power_from(n: int, p: int) -> int
    decreases 2 * n - p,
{
    if p >= n || p <= 0 {
        p
    } else {
        power_from(n, 2 * p)
    }
}

/// Every element has exactly one thread, and no block is idle.
pub proof fn law_every_element_has_one_thread(n: int, i: int)
    requires
        0 <= i < n,
        n + 255 <= u32::MAX,
    ensures
        flat_launch(n).block.0 == 256,
        0 <= i / 256 < flat_launch(n).grid.0,
        0 <= i % 256 < 256,
        i == (i / 256) * 256 + i % 256,
        (flat_launch(n).grid.0 - 1) * 256 < n,
        forall|b: int, t: int|
            0 <= t < 256 && #[trigger] (b * 256 + t) == i ==> b == i / 256 && t == i % 256,
{
    lemma_ceil_div(n, 256);
}

/// A block of a reduction is a power of two with room for every expert, and
/// less than twice as large as needed.
pub proof fn law_reduction_blocks_are_tight(n: int)
    requires
        1 <= n <= 0x1000_0000,
    ensures
        n <= power_above(n) < 2 * n,
{
    lemma_power(n, 1);
}

proof fn lemma_power(n: int, p: int)
    requires
        1 <= p,
        p < 2 * n,
    ensures
        n <= power_from(n, p) < 2 * n,
        power_from(n, p) >= p,
    decreases 2 * n - p,
{
    if p < n {
        lemma_power(n, 2 * p);
    }
}

/// One thread per element.
fn flat(n: u32) -> (launch: Launch)
    requires
        n + 255 <= u32::MAX,
    ensures
        launch == flat_launch(n as int),
{
    proof {
        lemma_ceil_div(n as int, 256);
    }
    Launch { grid: ((n + 255) / 256, 1, 1), block: (256, 1, 1), shared_bytes: 0 }
}

/// How many groups of 256 there are.
fn groups_of_256(n: u32) -> (groups: u32)
    ensures
        groups == ceil_div(n as int, 256),
{
    proof {
        lemma_ceil_div(n as int, 256);
    }
    if n % 256 == 0 {
        n / 256
    } else {
        n / 256 + 1
    }
}

/// One thread per element, for any count.
fn flat_any(n: u32) -> (launch: Launch)
    ensures
        launch == flat_launch(n as int),
{
    Launch { grid: (groups_of_256(n), 1, 1), block: (256, 1, 1), shared_bytes: 0 }
}

/// At most 256.
fn at_most_256(n: u32) -> (m: u32)
    ensures
        m == capped(n),
{
    if n < 256 {
        n
    } else {
        256
    }
}

/// One block per row.
fn rows(n_rows: u32, dim: u32, bytes_per_thread: u32) -> (launch: Launch)
    requires
        bytes_per_thread <= 8,
    ensures
        launch == row_launch(n_rows, dim, bytes_per_thread),
{
    let threads: u32 = at_most_256(dim);
    assert(threads * bytes_per_thread <= 2048) by (nonlinear_arith)
        requires
            threads <= 256,
            bytes_per_thread <= 8,
    ;
    Launch {
        grid: (n_rows, 1, 1),
        block: (threads, 1, 1),
        shared_bytes: threads * bytes_per_thread,
    }
}

/// A grid of blocks of one row of threads.
fn rotary(x: u32, y: u32, threads: u32) -> (launch: Launch)
    ensures
        launch == grid_launch(x, y, threads, 0),
{
    Launch { grid: (x, y, 1), block: (threads, 1, 1), shared_bytes: 0 }
}

/// As many blocks per row as the row needs.
fn tiled(n_rows: u32, width: u32) -> (launch: Launch)
    ensures
        launch == tile_launch(n_rows, width as int),
{
    Launch { grid: (n_rows, groups_of_256(width), 1), block: (256, 1, 1), shared_bytes: 0 }
}

/// A single block.
fn single(threads: u32, shared_bytes: u32) -> (launch: Launch)
    ensures
        launch == grid_launch(1, 1, threads, shared_bytes),
{
    Launch { grid: (1, 1, 1), block: (threads, 1, 1), shared_bytes }
}

/// The least power of two that is not below `n`.
fn power_of_two(n: u32) -> (p: u32)
    requires
        n <= 0x1000_0000,
    ensures
        p == power_above(n as int),
        p <= 0x2000_0000,
{
    let mut p: u32 = 1;
    while p < n
        invariant
            1 <= p,
            n <= 0x1000_0000,
            p < n || p < 2 * n || p == 1,
            p <= 0x2000_0000,
            power_from(n as int, p as int) == power_above(n as int),
        decreases 2 * n - p,
    {
        p = 2 * p;
    }
    p
}

/// The transformer kernels.
pub struct OpsKernels;

impl OpsKernels {
    /// Causal convolution over channel-first data.
    pub fn conv1d_causal_f16(out_channels: u32, seq_len: u32) -> (launch: Launch)
        ensures
            launch == grid_launch(out_channels, (seq_len) as u32, 256, 0),
    {
        rotary(out_channels, seq_len, 256)
    }

    /// Causal transposed convolution over channel-first data.
    pub fn conv_transpose1d_causal_f16(out_channels: u32, input_len: u32, stride: u32) -> (launch: Launch)
        requires
            input_len * stride <= u32::MAX,
        ensures
            launch == grid_launch(out_channels, (input_len * stride) as u32, 256, 0),
    {
        rotary(out_channels, input_len * stride, 256)
    }

    /// Transposes a matrix.
    pub fn transpose_f16(rows: u32, cols: u32) -> (launch: Launch)
        requires
            rows * cols + 255 <= u32::MAX,
        ensures
            launch == flat_launch((rows * cols) as int),
    {
        flat(rows * cols)
    }

    /// Exact GELU.
    pub fn gelu_erf_f16(n: u32) -> (launch: Launch)
        requires
            n + 255 <= u32::MAX,
        ensures
            launch == flat_launch((n) as int),
    {
        flat(n)
    }

    /// Snake activation with two parameters per channel.
    pub fn snake_beta_f16(channels: u32, seq_len: u32) -> (launch: Launch)
        requires
            channels * seq_len + 255 <= u32::MAX,
        ensures
            launch == flat_launch((channels * seq_len) as int),
    {
        flat(channels * seq_len)
    }

    /// Clamps to a range.
    pub fn clamp_f16(n: u32) -> (launch: Launch)
        requires
            n + 255 <= u32::MAX,
        ensures
            launch == flat_launch((n) as int),
    {
        flat(n)
    }

    /// Row-wise RMS normalisation.
    pub fn rms_norm(n_rows: u32, dim: u32) -> (launch: Launch)
        ensures
            launch == row_launch(n_rows, dim, 4),
    {
        rows(n_rows, dim, 4)
    }

    /// Row-wise RMS normalisation of single-precision rows.
    pub fn rms_norm_f32in(n_rows: u32, dim: u32) -> (launch: Launch)
        ensures
            launch == row_launch(n_rows, dim, 4),
    {
        rows(n_rows, dim, 4)
    }

    /// Row-wise layer normalisation of single-precision rows.
    pub fn layer_norm_f32in(n_rows: u32, dim: u32) -> (launch: Launch)
        ensures
            launch == row_launch(n_rows, dim, 8),
    {
        rows(n_rows, dim, 8)
    }

    /// Row-wise RMS normalisation without weights.
    pub fn rms_norm_f32in_no_weight(n_rows: u32, dim: u32) -> (launch: Launch)
        ensures
            launch == row_launch(n_rows, dim, 4),
    {
        rows(n_rows, dim, 4)
    }

    /// Rotary embedding.
    pub fn rope(seq_len: u32, n_heads: u32, head_dim: u32) -> (launch: Launch)
        ensures
            launch == grid_launch(seq_len, n_heads, head_dim / 2, 0),
    {
        rotary(seq_len, n_heads, head_dim / 2)
    }

    /// Gated SiLU.
    pub fn silu(n: u32) -> (launch: Launch)
        requires
            n + 255 <= u32::MAX,
        ensures
            launch == flat_launch((n) as int),
    {
        flat(n)
    }

    /// Gated SiLU, quantised.
    pub fn silu_q8(n: u32) -> (launch: Launch)
        requires
            n + 255 <= u32::MAX,
        ensures
            launch == flat_launch((n) as int),
    {
        flat(n)
    }

    /// Row-wise softmax.
    pub fn softmax(n_rows: u32, dim: u32) -> (launch: Launch)
        ensures
            launch == row_launch(n_rows, dim, 4),
    {
        rows(n_rows, dim, 4)
    }

    /// Looks up token rows.
    pub fn embed_tokens_f32(n_tokens: u32, dim: u32) -> (launch: Launch)
        ensures
            launch == row_launch(n_tokens, dim, 0),
    {
        rows(n_tokens, dim, 0)
    }

    /// Adds.
    pub fn add_f16(n: u32) -> (launch: Launch)
        requires
            n + 255 <= u32::MAX,
        ensures
            launch == flat_launch((n) as int),
    {
        flat(n)
    }

    /// Adds half to single precision.
    pub fn add_f32_f16(n: u32) -> (launch: Launch)
        requires
            n + 255 <= u32::MAX,
        ensures
            launch == flat_launch((n) as int),
    {
        flat(n)
    }

    /// Adds a row to every row.
    pub fn add_bias_f16(n_rows: u32, dim: u32) -> (launch: Launch)
        ensures
            launch == tile_launch(n_rows, dim as int),
    {
        tiled(n_rows, dim)
    }

    /// Adds a row to every row, in place.
    pub fn add_bias_f16_inplace(n_rows: u32, dim: u32) -> (launch: Launch)
        ensures
            launch == tile_launch(n_rows, dim as int),
    {
        tiled(n_rows, dim)
    }

    /// Adds and normalises.
    pub fn fused_add_rmsnorm(n_rows: u32, dim: u32) -> (launch: Launch)
        ensures
            launch == row_launch(n_rows, dim, 4),
    {
        rows(n_rows, dim, 4)
    }

    /// Normalises and quantises.
    pub fn rms_norm_f32in_q8(n_rows: u32, dim: u32) -> (launch: Launch)
        ensures
            launch == row_launch(n_rows, dim, 4),
    {
        rows(n_rows, dim, 4)
    }

    /// Adds, normalises and quantises.
    pub fn fused_add_rmsnorm_q8(n_rows: u32, dim: u32) -> (launch: Launch)
        ensures
            launch == row_launch(n_rows, dim, 4),
    {
        rows(n_rows, dim, 4)
    }

    /// Adds half precision to single precision in place.
    pub fn add_inplace_f32_f16(n: u32) -> (launch: Launch)
        requires
            n + 255 <= u32::MAX,
        ensures
            launch == flat_launch((n) as int),
    {
        flat(n)
    }

    /// Narrows.
    pub fn copy_f32_to_f16(n: u32) -> (launch: Launch)
        requires
            n + 255 <= u32::MAX,
        ensures
            launch == flat_launch((n) as int),
    {
        flat(n)
    }

    /// Widens.
    pub fn copy_f16_to_f32(n: u32) -> (launch: Launch)
        requires
            n + 255 <= u32::MAX,
        ensures
            launch == flat_launch((n) as int),
    {
        flat(n)
    }

    /// Adds single precision in place.
    pub fn add_inplace_f32(n: u32) -> (launch: Launch)
        requires
            n + 255 <= u32::MAX,
        ensures
            launch == flat_launch((n) as int),
    {
        flat(n)
    }

    /// Copies.
    pub fn copy_f16(n: u32) -> (launch: Launch)
        requires
            n + 255 <= u32::MAX,
        ensures
            launch == flat_launch((n) as int),
    {
        flat(n)
    }

    /// Rotary embedding of queries and keys, and the cache write.
    pub fn fused_rope_kv(head_dim: u32, n_heads: u32, n_kv_heads: u32, seq_len: u32) -> (launch: Launch)
        requires
            n_heads + n_kv_heads <= u32::MAX,
        ensures
            launch == grid_launch(seq_len, (n_heads + n_kv_heads) as u32, head_dim / 2, 0),
    {
        rotary(seq_len, n_heads + n_kv_heads, head_dim / 2)
    }

    /// Finds the largest.
    pub fn argmax_f16() -> (launch: Launch)
        ensures
            launch == grid_launch(1, 1, 256, 0),
    {
        single(256, 0)
    }

    /// Samples among the largest.
    pub fn sample_top_k() -> (launch: Launch)
        ensures
            launch == grid_launch(1, 1, 256, 0),
    {
        single(256, 0)
    }

    /// Rotary embedding at a position on the device.
    pub fn rope_graph(seq_len: u32, n_heads: u32, head_dim: u32) -> (launch: Launch)
        ensures
            launch == grid_launch(seq_len, n_heads, head_dim / 2, 0),
    {
        rotary(seq_len, n_heads, head_dim / 2)
    }

    /// Copies to an offset on the device.
    pub fn copy_f16_with_offset(n: u32) -> (launch: Launch)
        requires
            n + 255 <= u32::MAX,
        ensures
            launch == flat_launch((n) as int),
    {
        flat(n)
    }

    /// Tiled attention at a position on the device.
    pub fn mha_fused_graph(head_dim: u32, n_heads: u32, seq_len: u32) -> (launch: Launch)
        requires
            (8 + 4 * head_dim) * 4 <= u32::MAX,
        ensures
            launch == (Launch { grid: (n_heads, seq_len, 1), block: (32, 4, 1), shared_bytes: ((8 + 4 * head_dim) * 4) as u32 }),
    {
        Launch { grid: (n_heads, seq_len, 1), block: (32, 4, 1), shared_bytes: (8 + 4 * head_dim) * 4 }
    }

    /// Gated GELU.
    pub fn gelu(n: u32) -> (launch: Launch)
        requires
            n + 255 <= u32::MAX,
        ensures
            launch == flat_launch((n) as int),
    {
        flat(n)
    }

    /// Gated GELU over joined halves.
    pub fn gelu_split_batch(expert_ff: u32, batch: u32) -> (launch: Launch)
        requires
            expert_ff * batch + 255 <= u32::MAX,
        ensures
            launch == flat_launch((expert_ff * batch) as int),
    {
        flat(expert_ff * batch)
    }

    /// Row-wise RMS normalisation without weights.
    pub fn rms_norm_no_weight(n_rows: u32, dim: u32) -> (launch: Launch)
        ensures
            launch == row_launch(n_rows, dim, 4),
    {
        rows(n_rows, dim, 4)
    }

    /// Scales.
    pub fn scale_f16(n: u32) -> (launch: Launch)
        requires
            n + 255 <= u32::MAX,
        ensures
            launch == flat_launch((n) as int),
    {
        flat(n)
    }

    /// Weighted sum of rows.
    pub fn weighted_sum_rows_f16(dim: u32) -> (launch: Launch)
        requires
            dim + 255 <= u32::MAX,
        ensures
            launch == flat_launch((dim) as int),
    {
        flat(dim)
    }

    /// Scales single precision in place.
    pub fn scale_f32_inplace(n: u32) -> (launch: Launch)
        requires
            n + 255 <= u32::MAX,
        ensures
            launch == flat_launch((n) as int),
    {
        flat(n)
    }

    /// Caps softly.
    pub fn logit_softcap(n: u32) -> (launch: Launch)
        requires
            n + 255 <= u32::MAX,
        ensures
            launch == flat_launch((n) as int),
    {
        flat(n)
    }

    /// Caps softly in place.
    pub fn logit_softcap_inplace(n: u32) -> (launch: Launch)
        requires
            n + 255 <= u32::MAX,
        ensures
            launch == flat_launch((n) as int),
    {
        flat(n)
    }

    /// Rotary embedding over halves.
    pub fn rope_neox(seq_len: u32, n_heads: u32, head_dim: u32) -> (launch: Launch)
        ensures
            launch == grid_launch(seq_len, n_heads, head_dim / 2, 0),
    {
        rotary(seq_len, n_heads, head_dim / 2)
    }

    /// Rotary embedding over halves with a factor per frequency.
    pub fn rope_neox_freqs(seq_len: u32, n_heads: u32, head_dim: u32) -> (launch: Launch)
        ensures
            launch == grid_launch(seq_len, n_heads, head_dim / 2, 0),
    {
        rotary(seq_len, n_heads, head_dim / 2)
    }

    /// Rotary embedding over halves at a position on the device.
    pub fn rope_neox_graph(seq_len: u32, n_heads: u32, head_dim: u32) -> (launch: Launch)
        ensures
            launch == grid_launch(seq_len, n_heads, head_dim / 2, 0),
    {
        rotary(seq_len, n_heads, head_dim / 2)
    }

    /// Normalises and adds.
    pub fn post_norm_add(n_rows: u32, dim: u32) -> (launch: Launch)
        ensures
            launch == row_launch(n_rows, dim, 4),
    {
        rows(n_rows, dim, 4)
    }

    /// Multiplies.
    pub fn mul_f16(n: u32) -> (launch: Launch)
        requires
            n + 255 <= u32::MAX,
        ensures
            launch == flat_launch((n) as int),
    {
        flat(n)
    }

    /// Multiplies rows by a row.
    pub fn mul_f16_broadcast(n: u32) -> (launch: Launch)
        requires
            n + 255 <= u32::MAX,
        ensures
            launch == flat_launch((n) as int),
    {
        flat(n)
    }

    /// GELU.
    pub fn gelu_act(n: u32) -> (launch: Launch)
        requires
            n + 255 <= u32::MAX,
        ensures
            launch == flat_launch((n) as int),
    {
        flat(n)
    }

    /// Gathers quantised rows.
    pub fn gather_rows_quant(row_bytes: u32, n_tokens: u32) -> (launch: Launch)
        requires
            row_bytes + 255 <= u32::MAX,
        ensures
            launch == tile_launch(n_tokens, row_bytes as int),
    {
        tiled(n_tokens, row_bytes)
    }

    /// Multiplies by part of wider rows.
    pub fn pe_strided_mul(epl: u32, n_tokens: u32) -> (launch: Launch)
        requires
            n_tokens * epl + 255 <= u32::MAX,
        ensures
            launch == flat_launch((n_tokens * epl) as int),
    {
        flat(n_tokens * epl)
    }

    /// Rotary embedding and cache write.
    pub fn rope_kv_write(head_dim: u32, n_heads: u32, n_kv_heads: u32, seq_len: u32) -> (launch: Launch)
        requires
            n_heads + n_kv_heads <= u32::MAX,
        ensures
            launch == grid_launch(seq_len, (n_heads + n_kv_heads) as u32, capped(head_dim / 2), 0),
    {
        rotary(seq_len, n_heads + n_kv_heads, at_most_256(head_dim / 2))
    }

    /// Tiled attention.
    pub fn mha_fused(head_dim: u32, n_heads: u32, seq_len: u32) -> (launch: Launch)
        requires
            (8 + 4 * head_dim) * 4 <= u32::MAX,
        ensures
            launch == (Launch { grid: (n_heads, seq_len, 1), block: (32, 4, 1), shared_bytes: ((8 + 4 * head_dim) * 4) as u32 }),
    {
        Launch { grid: (n_heads, seq_len, 1), block: (32, 4, 1), shared_bytes: (8 + 4 * head_dim) * 4 }
    }

    /// Tiled attention with its own scale.
    pub fn mha_fused_scaled(head_dim: u32, n_heads: u32, seq_len: u32) -> (launch: Launch)
        requires
            (8 + 4 * head_dim) * 4 <= u32::MAX,
        ensures
            launch == (Launch { grid: (n_heads, seq_len, 1), block: (32, 4, 1), shared_bytes: ((8 + 4 * head_dim) * 4) as u32 }),
    {
        Launch { grid: (n_heads, seq_len, 1), block: (32, 4, 1), shared_bytes: (8 + 4 * head_dim) * 4 }
    }

    /// Plain causal attention.
    pub fn mha_naive(n_heads: u32, seq_len: u32, kv_len: u32) -> (launch: Launch)
        requires
            8 * kv_len <= u32::MAX,
        ensures
            launch == grid_launch(n_heads, seq_len, 1, (8 * kv_len) as u32),
    {
        Launch { grid: (n_heads, seq_len, 1), block: (1, 1, 1), shared_bytes: 8 * kv_len }
    }

    /// Plain full attention.
    pub fn mha_naive_full(n_heads: u32, seq_len: u32, kv_len: u32) -> (launch: Launch)
        requires
            8 * kv_len <= u32::MAX,
        ensures
            launch == grid_launch(n_heads, seq_len, 1, (8 * kv_len) as u32),
    {
        Launch { grid: (n_heads, seq_len, 1), block: (1, 1, 1), shared_bytes: 8 * kv_len }
    }

    /// Plain masked attention.
    pub fn mha_naive_masked(n_heads: u32, seq_len: u32, kv_len: u32) -> (launch: Launch)
        requires
            8 * kv_len <= u32::MAX,
        ensures
            launch == grid_launch(n_heads, seq_len, 128, (8 * kv_len) as u32),
    {
        Launch { grid: (n_heads, seq_len, 1), block: (128, 1, 1), shared_bytes: 8 * kv_len }
    }

    /// Reduces logits per position.
    pub fn eb_reduce(c_len: u32) -> (launch: Launch)
        ensures
            launch == grid_launch(c_len, 1, 256, 0),
    {
        rotary(c_len, 1, 256)
    }

    /// Gathers rows.
    pub fn gather_rows_f16(n_rows: u32) -> (launch: Launch)
        ensures
            launch == grid_launch(n_rows, 1, 256, 0),
    {
        rotary(n_rows, 1, 256)
    }

    /// Scatters rows.
    pub fn scatter_add_rows_f16(n_rows: u32) -> (launch: Launch)
        ensures
            launch == grid_launch(n_rows, 1, 256, 0),
    {
        rotary(n_rows, 1, 256)
    }

    /// Softmax and choice of the largest.
    pub fn softmax_topk(n_experts: u32) -> (launch: Launch)
        requires
            n_experts <= 0x1000_0000,
        ensures
            launch == grid_launch(1, 1, power_above(n_experts as int) as u32, ((n_experts + power_above(n_experts as int)) * 4) as u32),
    {
        let block: u32 = power_of_two(n_experts);
        single(block, (n_experts + block) * 4)
    }

    /// Normalisation, projection, softmax and choice.
    pub fn fused_moe_router(dim: u32, n_experts: u32) -> (launch: Launch)
        requires
            n_experts <= 0x800_0000,
            dim <= 0x1000_0000,
        ensures
            launch == grid_launch(1, 1, power_above(n_experts as int) as u32, ((dim + n_experts + power_above(n_experts as int)) * 4) as u32),
    {
        let block: u32 = power_of_two(n_experts);
        single(block, (dim + n_experts + block) * 4)
    }
}

/// The speaker kernels.
pub struct SpeakerKernels;

impl SpeakerKernels {
    /// Gathers receptive fields with reflection.
    pub fn unfold_reflect(channels: u32, seq_len: u32, kernel_size: u32) -> (launch: Launch)
        requires
            channels * seq_len <= u32::MAX,
            channels * seq_len * kernel_size <= u32::MAX,
        ensures
            launch == flat_launch((channels * seq_len * kernel_size) as int),
    {
        flat_any(channels * seq_len * kernel_size)
    }

    /// ReLU.
    pub fn relu(n: u32) -> (launch: Launch)
        ensures
            launch == flat_launch((n) as int),
    {
        flat_any(n)
    }

    /// Hyperbolic tangent.
    pub fn tanh(n: u32) -> (launch: Launch)
        ensures
            launch == flat_launch((n) as int),
    {
        flat_any(n)
    }

    /// Logistic function.
    pub fn sigmoid(n: u32) -> (launch: Launch)
        ensures
            launch == flat_launch((n) as int),
    {
        flat_any(n)
    }

    /// Mean per channel.
    pub fn channel_mean(channels: u32) -> (launch: Launch)
        ensures
            launch == grid_launch(channels, 1, 256, 0),
    {
        rotary(channels, 1, 256)
    }

    /// Scales channels.
    pub fn channel_scale(channels: u32, seq_len: u32) -> (launch: Launch)
        requires
            channels * seq_len <= u32::MAX,
        ensures
            launch == flat_launch((channels * seq_len) as int),
    {
        flat_any(channels * seq_len)
    }

    /// Copies channels.
    pub fn append_channel_block(input_channels: u32, seq_len: u32) -> (launch: Launch)
        requires
            input_channels * seq_len <= u32::MAX,
        ensures
            launch == flat_launch((input_channels * seq_len) as int),
    {
        flat_any(input_channels * seq_len)
    }

    /// Stacks input and statistics.
    pub fn append_context(channels: u32, seq_len: u32) -> (launch: Launch)
        requires
            channels * seq_len <= u32::MAX,
        ensures
            launch == flat_launch((channels * seq_len) as int),
    {
        flat_any(channels * seq_len)
    }

    /// Mean and deviation per channel.
    pub fn channel_stats(channels: u32) -> (launch: Launch)
        ensures
            launch == grid_launch(channels, 1, 256, 0),
    {
        rotary(channels, 1, 256)
    }

    /// Softmax over time per channel.
    pub fn softmax_channels(channels: u32) -> (launch: Launch)
        ensures
            launch == grid_launch(channels, 1, 256, 0),
    {
        rotary(channels, 1, 256)
    }
}

impl OpsKernels {
    /// The functions of the module, in the order in which they are looked up.
    pub open spec fn listed() -> Seq<Seq<char>> {
        seq![
            "rms_norm"@,
            "rms_norm_f32in"@,
            "layer_norm_f32in"@,
            "rope"@,
            "silu"@,
            "silu_q8"@,
            "softmax"@,
            "embed_tokens_f32"@,
            "add_f16"@,
            "add_f32_f16"@,
            "add_bias_f16"@,
            "add_bias_f16_inplace"@,
            "copy_f32_to_f16"@,
            "copy_f16_to_f32"@,
            "add_inplace_f32"@,
            "copy_f16"@,
            "fused_add_rmsnorm"@,
            "rms_norm_f32in_q8"@,
            "fused_add_rmsnorm_q8"@,
            "add_inplace_f32_f16"@,
            "fused_rope_kv"@,
            "argmax_f16"@,
            "sample_top_k"@,
            "mha_fused"@,
            "mha_naive"@,
            "mha_naive_full"@,
            "mha_naive_masked"@,
            "gather_rows_f16"@,
            "scatter_add_rows_f16"@,
            "eb_reduce"@,
            "rope_graph"@,
            "copy_f16_with_offset"@,
            "mha_fused_graph"@,
            "gelu"@,
            "gelu_split_batch"@,
            "rms_norm_no_weight"@,
            "rms_norm_f32in_no_weight"@,
            "scale_f16"@,
            "weighted_sum_rows_f16"@,
            "scale_f32_inplace"@,
            "logit_softcap"@,
            "logit_softcap_inplace"@,
            "rope_neox"@,
            "rope_neox_freqs"@,
            "rope_neox_graph"@,
            "post_norm_add"@,
            "mul_f16"@,
            "mul_f16_broadcast"@,
            "gelu_act"@,
            "gather_rows_quant"@,
            "pe_strided_mul"@,
            "rope_kv_write"@,
            "softmax_topk"@,
            "fused_moe_router"@,
            "conv1d_causal_f16"@,
            "conv_transpose1d_causal_f16"@,
            "transpose_f16"@,
            "gelu_erf_f16"@,
            "snake_beta_f16"@,
            "clamp_f16"@,
        ]
    }

    /// The functions of the module, in the order in which they are looked up.
    pub fn function_name(i: usize) -> (name: &'static str)
        requires
            i < 60,
        ensures
            name@ == Self::listed()[i as int],
    {
        match i {
            0 => "rms_norm",
            1 => "rms_norm_f32in",
            2 => "layer_norm_f32in",
            3 => "rope",
            4 => "silu",
            5 => "silu_q8",
            6 => "softmax",
            7 => "embed_tokens_f32",
            8 => "add_f16",
            9 => "add_f32_f16",
            10 => "add_bias_f16",
            11 => "add_bias_f16_inplace",
            12 => "copy_f32_to_f16",
            13 => "copy_f16_to_f32",
            14 => "add_inplace_f32",
            15 => "copy_f16",
            16 => "fused_add_rmsnorm",
            17 => "rms_norm_f32in_q8",
            18 => "fused_add_rmsnorm_q8",
            19 => "add_inplace_f32_f16",
            20 => "fused_rope_kv",
            21 => "argmax_f16",
            22 => "sample_top_k",
            23 => "mha_fused",
            24 => "mha_naive",
            25 => "mha_naive_full",
            26 => "mha_naive_masked",
            27 => "gather_rows_f16",
            28 => "scatter_add_rows_f16",
            29 => "eb_reduce",
            30 => "rope_graph",
            31 => "copy_f16_with_offset",
            32 => "mha_fused_graph",
            33 => "gelu",
            34 => "gelu_split_batch",
            35 => "rms_norm_no_weight",
            36 => "rms_norm_f32in_no_weight",
            37 => "scale_f16",
            38 => "weighted_sum_rows_f16",
            39 => "scale_f32_inplace",
            40 => "logit_softcap",
            41 => "logit_softcap_inplace",
            42 => "rope_neox",
            43 => "rope_neox_freqs",
            44 => "rope_neox_graph",
            45 => "post_norm_add",
            46 => "mul_f16",
            47 => "mul_f16_broadcast",
            48 => "gelu_act",
            49 => "gather_rows_quant",
            50 => "pe_strided_mul",
            51 => "rope_kv_write",
            52 => "softmax_topk",
            53 => "fused_moe_router",
            54 => "conv1d_causal_f16",
            55 => "conv_transpose1d_causal_f16",
            56 => "transpose_f16",
            57 => "gelu_erf_f16",
            58 => "snake_beta_f16",
            _ => "clamp_f16",
        }
    }
}

impl SpeakerKernels {
    /// The functions of the module, in the order in which they are looked up.
    pub open spec fn listed() -> Seq<Seq<char>> {
        seq![
            "unfold_reflect_f16"@,
            "relu_f16"@,
            "tanh_f16"@,
            "sigmoid_f16"@,
            "channel_mean_f16"@,
            "channel_scale_f16"@,
            "append_channel_block_f16"@,
            "append_context_f16"@,
            "channel_stats_f16"@,
            "softmax_channels_f16"@,
        ]
    }

    /// The functions of the module, in the order in which they are looked up.
    pub fn function_name(i: usize) -> (name: &'static str)
        requires
            i < 10,
        ensures
            name@ == Self::listed()[i as int],
    {
        match i {
            0 => "unfold_reflect_f16",
            1 => "relu_f16",
            2 => "tanh_f16",
            3 => "sigmoid_f16",
            4 => "channel_mean_f16",
            5 => "channel_scale_f16",
            6 => "append_channel_block_f16",
            7 => "append_context_f16",
            8 => "channel_stats_f16",
            _ => "softmax_channels_f16",
        }
    }
}

} // verus!
