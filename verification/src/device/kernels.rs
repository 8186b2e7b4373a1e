//! The device kernels a plan can launch: what each one is called, which
//! buffers it reads and writes, and how far into them it reaches.
use vstd::prelude::*;
use crate::device::{Op, Plan, Scalar, gather, store};

verus! {

/// A device routine.
#[derive(Clone, Copy, Debug, PartialEq, Eq, Structural)]
pub enum Kernel {
    /// Row-wise RMS normalisation of f16 data with a learned scale.
    RmsNorm,
    /// Row-wise RMS normalisation from f32 to f16.
    RmsNormF32in,
    /// `out = weight * x` for one row of `k` values.
    GemvF16,
    /// Two matrix-vector products over one input row.
    GemvDualF16,
    /// `out[m, n] = a[m, k] * b[n, k]` transposed.
    MatmulF16,
    /// Adds a bias row to every row.
    AddBiasF16Inplace,
    /// NeoX rotary embedding in place, starting at position `pos`.
    RopeNeox,
    /// Copies `n` values to element `offset` of the destination.
    CopyF16At,
    /// Causal grouped-query attention over a key/value prefix.
    MhaFused,
    /// `hidden += delta` over `n` values.
    AddInplaceF32F16,
    /// `out = silu(gate) * up` over `n` values.
    Silu,
    /// Copies the rows of `table` that `ids` names.
    GatherRowsF16,
    /// `out = silu(x)` over `n` values.
    SiluActF16,
    /// Index of the largest of `n` values.
    ArgmaxF16,
    /// Narrows `n` values.
    CopyF32ToF16,
    /// Widens `n` values.
    CopyF16ToF32,
    /// `out = a + b` over `n` values.
    AddF16,
    /// `out[i] = a[i] * b[i % stride]` over `n` values.
    MulF16Broadcast,
    /// Causal convolution over channel-first data.
    Conv1dCausalF16,
    /// Causal transposed convolution over channel-first data.
    ConvTranspose1dCausalF16,
    /// Transposes a row-major matrix.
    TransposeF16,
    /// Row-wise layer normalisation from f32 to f16.
    LayerNormF32in,
    /// `out = gelu(x)` over `n` values.
    GeluErfF16,
    /// Causal windowed attention with an explicit scale and soft cap.
    MhaFusedScaled,
    /// ELU in place over `n` values.
    Elu,
    /// Copies `n` elements from the start of one buffer to another.
    CopyBuffer,
    /// Gathers the receptive field of every output of a causal strided convolution.
    UnfoldCausalStride,
    /// Index of the closest codebook row of every frame.
    NearestCodebook,
    /// Subtracts the chosen codebook row from every frame.
    SubtractCodebook,
    /// Gathers the receptive field of every frame, reflecting at both ends.
    UnfoldReflect,
    /// ReLU in place over `n` values.
    Relu,
    /// Hyperbolic tangent in place over `n` values.
    Tanh,
    /// Logistic function in place over `n` values.
    Sigmoid,
    /// Mean of every channel.
    ChannelMean,
    /// Scales every channel by one factor.
    ChannelScale,
    /// Copies channels into a wider channel-first buffer at a channel offset.
    AppendChannelBlock,
    /// Stacks the input with its mean and deviation repeated over time.
    AppendContext,
    /// Mean and deviation of every channel.
    ChannelStats,
    /// Mean and deviation of every channel under weights over time.
    WeightedChannelStats,
    /// Softmax over time, channel by channel, in place.
    SoftmaxChannels,
    /// Copies `n` elements from element `offset` of the source.
    CopyFrom,
    /// Row-wise RMS normalisation from f32 to bf16.
    RmsNormF32inBf16,
    /// `out[m, n] = a[m, k] * b[n, k]` transposed, in bf16.
    MatmulBf16,
    /// `out = weight * x` for one row of `k` bf16 values.
    GemvBf16,
    /// Two matrix-vector products over one bf16 input row.
    GemvDualBf16,
    /// `hidden += delta` over `n` bf16 values.
    AddInplaceF32Bf16,
    /// `out = silu(gate) * up` over `n` bf16 values.
    SiluBf16,
    /// `out = silu(x)` over `n` bf16 values.
    SiluActBf16,
    /// Copies the bf16 rows of `table` that `ids` names.
    GatherRowsBf16,
    /// Adds a bias row to every bf16 row.
    AddBiasBf16Inplace,
    /// Converts `n` values from bf16 to f16.
    CopyBf16ToF16,
    /// Converts `n` values from f16 to bf16.
    CopyF16ToBf16,
    /// Widens `n` bf16 values.
    CopyBf16ToF32,
    /// NeoX rotary embedding in place with a factor per frequency.
    RopeNeoxFreqs,
    /// Full attention with an explicit scale and soft cap.
    MhaNaiveFull,
    /// Full attention with relative positions.
    MhaRelativeFull,
    /// Convolution over channel-first data padded on the left.
    Conv1dPaddedF16,
    /// Leaky ReLU over `n` values.
    LeakyReluF16,
    /// Repeats every frame of channel-first data.
    RepeatInterleaveF16,
    /// `out = x * scale` over `n` values.
    ScaleF16,
    /// Gathers the receptive field of every output of a convolution.
    UnfoldConv1dF16,
    /// Transposed convolution over channel-first data.
    ConvTranspose1dGeneralF16,
    /// Snake activation of channel-first data.
    SnakeF16,
    /// `out = elu(x)` over `n` values.
    EluF16,
    /// Puts the second frame of every channel in front of the first.
    ReflectionPadLeftF16,
    /// Divides `n` values by three, in place.
    ThirdF16,
    /// One step of a long short-term memory cell, reading gate row `in_step` and writing output row `out_step`.
    LstmCellF16,
    /// Convolution over channel-first data.
    Conv1dGeneralF16,
    /// Normalises every channel and applies its own scale and shift.
    InstanceNormAffineF16,
    /// Transposed convolution of every channel by itself.
    ConvTranspose1dDepthwiseF16,
    /// Gathers every frame and its neighbour at a displacement.
    UnfoldAdjacentF16,
    /// Writes one phase of a transposed convolution.
    ScatterConvTransposePhaseF16,
    /// Puts the rows of two matrices side by side.
    JoinRows,
    /// Puts one row behind every row of a matrix.
    AppendRow,
    /// Repeats every row as often as its count says.
    RepeatRows,
    /// Sums the word row of every token, the row of its position and the first kind row.
    EmbedTokensF32,
    /// Scale and shift of every channel from a style.
    StyleAffine,
    /// Normalises every row in place and applies a scale and shift from a style.
    StyleLayerNorm,
    /// Gathers the two taps of one phase of a transposed convolution.
    PhaseWeight,
    /// `out = relu(x)` over `n` bf16 values.
    ReluBf16,
    /// `out = a + b` over `n` bf16 values.
    AddBf16,
    /// Fills with ones.
    OnesBf16,
    /// Shifts and scales every row by parts of a modulation row.
    ModulateBf16Batched,
    /// Adds rows that are gated by the last part of a modulation row.
    GatedResidualBf16Batched,
    /// Adds one row to every row, in place.
    AddRowF32,
}

/// How many leading elements of its `i`-th read operand a kernel touches.
pub open spec fn read_extent(kernel: Kernel, scalars: Seq<Scalar>, i: int) -> int {
    match kernel {
        Kernel::RmsNorm => if i == 0 { scalars[0].count() * scalars[1].count() } else { scalars[1].count() },
        Kernel::RmsNormF32in => if i == 0 { scalars[0].count() * scalars[1].count() } else { scalars[1].count() },
        Kernel::GemvF16 => if i == 0 { scalars[1].count() } else { scalars[0].count() * scalars[1].count() },
        Kernel::GemvDualF16 => if i == 0 { scalars[1].count() } else if i == 1 { scalars[0].count() * scalars[1].count() } else { scalars[0].count() * scalars[1].count() },
        Kernel::MatmulF16 => if i == 0 { scalars[0].count() * scalars[2].count() } else { scalars[1].count() * scalars[2].count() },
        Kernel::AddBiasF16Inplace => if i == 0 { scalars[0].count() * scalars[1].count() } else { scalars[1].count() },
        Kernel::RopeNeox => scalars[0].count() * scalars[1].count() * scalars[2].count(),
        Kernel::CopyF16At => if i == 0 { scalars[0].count() } else { scalars[1].count() + scalars[0].count() },
        Kernel::MhaFused => if i == 0 { scalars[3].count() * scalars[1].count() * scalars[0].count() } else if i == 1 { scalars[4].count() * scalars[2].count() * scalars[0].count() } else { scalars[4].count() * scalars[2].count() * scalars[0].count() },
        Kernel::AddInplaceF32F16 => scalars[0].count(),
        Kernel::Silu => scalars[0].count(),
        Kernel::GatherRowsF16 => if i == 0 { 0 } else { scalars[0].count() },
        Kernel::SiluActF16 => scalars[0].count(),
        Kernel::ArgmaxF16 => scalars[0].count(),
        Kernel::CopyF32ToF16 => scalars[0].count(),
        Kernel::CopyF16ToF32 => scalars[0].count(),
        Kernel::AddF16 => scalars[0].count(),
        Kernel::MulF16Broadcast => if i == 0 { scalars[0].count() } else { scalars[1].count() },
        Kernel::Conv1dCausalF16 => if i == 0 { scalars[0].count() * scalars[2].count() } else if i == 1 { scalars[1].count() * (scalars[0].count() / scalars[5].count()) * scalars[3].count() } else { scalars[1].count() },
        Kernel::ConvTranspose1dCausalF16 => if i == 0 { scalars[0].count() * scalars[2].count() } else if i == 1 { scalars[0].count() * scalars[1].count() * scalars[3].count() } else { scalars[1].count() },
        Kernel::TransposeF16 => scalars[0].count() * scalars[1].count(),
        Kernel::LayerNormF32in => if i == 0 { scalars[0].count() * scalars[1].count() } else if i == 1 { scalars[1].count() } else { scalars[1].count() },
        Kernel::GeluErfF16 => scalars[0].count(),
        Kernel::MhaFusedScaled => if i == 0 { scalars[3].count() * scalars[1].count() * scalars[0].count() } else if i == 1 { scalars[4].count() * scalars[2].count() * scalars[0].count() } else { scalars[4].count() * scalars[2].count() * scalars[0].count() },
        Kernel::Elu => scalars[0].count(),
        Kernel::CopyBuffer => scalars[0].count(),
        Kernel::UnfoldCausalStride => scalars[0].count() * scalars[1].count(),
        Kernel::NearestCodebook => if i == 0 { scalars[0].count() * scalars[2].count() } else { scalars[1].count() * scalars[2].count() },
        Kernel::SubtractCodebook => if i == 0 { scalars[0].count() * scalars[1].count() } else if i == 1 { 0 } else { scalars[0].count() },
        Kernel::UnfoldReflect => scalars[0].count() * scalars[1].count(),
        Kernel::Relu => scalars[0].count(),
        Kernel::Tanh => scalars[0].count(),
        Kernel::Sigmoid => scalars[0].count(),
        Kernel::ChannelMean => scalars[0].count() * scalars[1].count(),
        Kernel::ChannelScale => if i == 0 { scalars[0].count() * scalars[1].count() } else { scalars[0].count() },
        Kernel::AppendChannelBlock => if i == 0 { scalars[0].count() * scalars[3].count() } else { (scalars[2].count() + scalars[0].count()) * scalars[3].count() },
        Kernel::AppendContext => if i == 0 { scalars[0].count() * scalars[1].count() } else if i == 1 { scalars[0].count() } else { scalars[0].count() },
        Kernel::ChannelStats => scalars[0].count() * scalars[1].count(),
        Kernel::WeightedChannelStats => scalars[0].count() * scalars[1].count(),
        Kernel::SoftmaxChannels => scalars[0].count() * scalars[1].count(),
        Kernel::CopyFrom => scalars[1].count() + scalars[0].count(),
        Kernel::RmsNormF32inBf16 => if i == 0 { scalars[0].count() * scalars[1].count() } else { scalars[1].count() },
        Kernel::MatmulBf16 => if i == 0 { scalars[0].count() * scalars[2].count() } else { scalars[1].count() * scalars[2].count() },
        Kernel::GemvBf16 => if i == 0 { scalars[1].count() } else { scalars[0].count() * scalars[1].count() },
        Kernel::GemvDualBf16 => if i == 0 { scalars[1].count() } else if i == 1 { scalars[0].count() * scalars[1].count() } else { scalars[0].count() * scalars[1].count() },
        Kernel::AddInplaceF32Bf16 => scalars[0].count(),
        Kernel::SiluBf16 => scalars[0].count(),
        Kernel::SiluActBf16 => scalars[0].count(),
        Kernel::GatherRowsBf16 => if i == 0 { 0 } else { scalars[0].count() },
        Kernel::AddBiasBf16Inplace => if i == 0 { scalars[0].count() * scalars[1].count() } else { scalars[1].count() },
        Kernel::CopyBf16ToF16 => scalars[0].count(),
        Kernel::CopyF16ToBf16 => scalars[0].count(),
        Kernel::CopyBf16ToF32 => scalars[0].count(),
        Kernel::RopeNeoxFreqs => if i == 0 { scalars[0].count() * scalars[1].count() * scalars[2].count() } else { scalars[2].count() / 2 },
        Kernel::MhaNaiveFull => if i == 0 { scalars[3].count() * scalars[1].count() * scalars[0].count() } else if i == 1 { scalars[4].count() * scalars[2].count() * scalars[0].count() } else { scalars[4].count() * scalars[2].count() * scalars[0].count() },
        Kernel::MhaRelativeFull => if i == 0 { scalars[2].count() * scalars[1].count() * scalars[0].count() } else if i == 1 { scalars[2].count() * scalars[1].count() * scalars[0].count() } else if i == 2 { scalars[2].count() * scalars[1].count() * scalars[0].count() } else if i == 3 { (2 * scalars[2].count() - 1) * scalars[1].count() * scalars[0].count() } else if i == 4 { scalars[1].count() * scalars[0].count() } else { scalars[1].count() * scalars[0].count() },
        Kernel::Conv1dPaddedF16 => if i == 0 { scalars[0].count() * scalars[2].count() } else if i == 1 { scalars[1].count() * scalars[0].count() * scalars[3].count() } else { scalars[1].count() },
        Kernel::LeakyReluF16 => scalars[0].count(),
        Kernel::RepeatInterleaveF16 => scalars[0].count() * scalars[1].count(),
        Kernel::ScaleF16 => scalars[0].count(),
        Kernel::UnfoldConv1dF16 => scalars[0].count() * scalars[1].count(),
        Kernel::ConvTranspose1dGeneralF16 => if i == 0 { scalars[0].count() * scalars[2].count() } else if i == 1 { scalars[0].count() * scalars[1].count() * scalars[4].count() } else { scalars[1].count() },
        Kernel::SnakeF16 => if i == 0 { scalars[0].count() * scalars[1].count() } else { scalars[0].count() },
        Kernel::EluF16 => scalars[0].count(),
        Kernel::ReflectionPadLeftF16 => scalars[0].count() * scalars[1].count(),
        Kernel::ThirdF16 => scalars[0].count(),
        Kernel::LstmCellF16 => if i == 0 { (scalars[1].count() + 1) * (4 * scalars[0].count()) } else if i == 1 { 4 * scalars[0].count() } else if i == 2 { 4 * scalars[0].count() } else if i == 3 { 4 * scalars[0].count() } else if i == 4 { scalars[0].count() } else if i == 5 { scalars[0].count() } else { (scalars[2].count() + 1) * scalars[0].count() },
        Kernel::Conv1dGeneralF16 => if i == 0 { scalars[0].count() * scalars[2].count() } else if i == 1 { scalars[1].count() * scalars[0].count() * scalars[4].count() } else { scalars[1].count() },
        Kernel::InstanceNormAffineF16 => if i == 0 { scalars[0].count() * scalars[1].count() } else if i == 1 { scalars[0].count() } else { scalars[0].count() },
        Kernel::ConvTranspose1dDepthwiseF16 => if i == 0 { scalars[0].count() * scalars[1].count() } else if i == 1 { scalars[0].count() * scalars[3].count() } else { scalars[0].count() },
        Kernel::UnfoldAdjacentF16 => scalars[0].count() * scalars[1].count(),
        Kernel::ScatterConvTransposePhaseF16 => if i == 0 { scalars[0].count() * scalars[1].count() } else if i == 1 { scalars[1].count() } else { scalars[1].count() * (scalars[0].count() * scalars[2].count()) },
        Kernel::JoinRows => if i == 0 { scalars[0].count() * scalars[1].count() } else { scalars[0].count() * scalars[2].count() },
        Kernel::AppendRow => if i == 0 { scalars[0].count() * scalars[1].count() } else { scalars[2].count() },
        Kernel::RepeatRows => if i == 0 { scalars[0].count() * scalars[1].count() } else { scalars[0].count() },
        Kernel::EmbedTokensF32 => if i == 0 { 0 } else if i == 1 { scalars[0].count() * scalars[1].count() } else if i == 2 { scalars[1].count() } else { scalars[0].count() },
        Kernel::StyleAffine => if i == 0 { 2 * scalars[0].count() * scalars[1].count() } else if i == 1 { 2 * scalars[0].count() } else { scalars[1].count() },
        Kernel::StyleLayerNorm => if i == 0 { scalars[0].count() * scalars[1].count() } else if i == 1 { 2 * scalars[1].count() * scalars[2].count() } else if i == 2 { 2 * scalars[1].count() } else { scalars[2].count() },
        Kernel::PhaseWeight => scalars[0].count() * scalars[1].count() * scalars[2].count(),
        Kernel::ReluBf16 => scalars[0].count(),
        Kernel::AddBf16 => scalars[0].count(),
        Kernel::OnesBf16 => 0,
        Kernel::ModulateBf16Batched => if i == 0 { scalars[0].count() * scalars[1].count() } else { scalars[0].count() * scalars[1].count() * scalars[2].count() },
        Kernel::GatedResidualBf16Batched => if i == 0 { scalars[0].count() * scalars[1].count() } else if i == 1 { scalars[0].count() * scalars[1].count() * 3 } else { scalars[0].count() * scalars[1].count() },
        Kernel::AddRowF32 => if i == 0 { scalars[0].count() * scalars[1].count() } else { scalars[1].count() },
    }
}

/// How many leading elements of its `i`-th write operand a kernel touches.
pub open spec fn write_extent(kernel: Kernel, scalars: Seq<Scalar>, i: int) -> int {
    match kernel {
        Kernel::RmsNorm => scalars[0].count() * scalars[1].count(),
        Kernel::RmsNormF32in => scalars[0].count() * scalars[1].count(),
        Kernel::GemvF16 => scalars[0].count(),
        Kernel::GemvDualF16 => scalars[0].count(),
        Kernel::MatmulF16 => scalars[0].count() * scalars[1].count(),
        Kernel::AddBiasF16Inplace => scalars[0].count() * scalars[1].count(),
        Kernel::RopeNeox => scalars[0].count() * scalars[1].count() * scalars[2].count(),
        Kernel::CopyF16At => scalars[1].count() + scalars[0].count(),
        Kernel::MhaFused => scalars[3].count() * scalars[1].count() * scalars[0].count(),
        Kernel::AddInplaceF32F16 => scalars[0].count(),
        Kernel::Silu => scalars[0].count(),
        Kernel::GatherRowsF16 => scalars[0].count() * scalars[1].count(),
        Kernel::SiluActF16 => scalars[0].count(),
        Kernel::ArgmaxF16 => 1,
        Kernel::CopyF32ToF16 => scalars[0].count(),
        Kernel::CopyF16ToF32 => scalars[0].count(),
        Kernel::AddF16 => scalars[0].count(),
        Kernel::MulF16Broadcast => scalars[0].count(),
        Kernel::Conv1dCausalF16 => scalars[1].count() * scalars[2].count(),
        Kernel::ConvTranspose1dCausalF16 => scalars[1].count() * (scalars[2].count() * scalars[4].count()),
        Kernel::TransposeF16 => scalars[0].count() * scalars[1].count(),
        Kernel::LayerNormF32in => scalars[0].count() * scalars[1].count(),
        Kernel::GeluErfF16 => scalars[0].count(),
        Kernel::MhaFusedScaled => scalars[3].count() * scalars[1].count() * scalars[0].count(),
        Kernel::Elu => scalars[0].count(),
        Kernel::CopyBuffer => scalars[0].count(),
        Kernel::UnfoldCausalStride => scalars[2].count() * (scalars[0].count() * scalars[3].count()),
        Kernel::NearestCodebook => scalars[0].count(),
        Kernel::SubtractCodebook => scalars[0].count() * scalars[1].count(),
        Kernel::UnfoldReflect => scalars[1].count() * (scalars[0].count() * scalars[2].count()),
        Kernel::Relu => scalars[0].count(),
        Kernel::Tanh => scalars[0].count(),
        Kernel::Sigmoid => scalars[0].count(),
        Kernel::ChannelMean => scalars[0].count(),
        Kernel::ChannelScale => scalars[0].count() * scalars[1].count(),
        Kernel::AppendChannelBlock => (scalars[2].count() + scalars[0].count()) * scalars[3].count(),
        Kernel::AppendContext => 3 * (scalars[0].count() * scalars[1].count()),
        Kernel::ChannelStats => scalars[0].count(),
        Kernel::WeightedChannelStats => scalars[0].count(),
        Kernel::SoftmaxChannels => scalars[0].count() * scalars[1].count(),
        Kernel::CopyFrom => scalars[0].count(),
        Kernel::RmsNormF32inBf16 => scalars[0].count() * scalars[1].count(),
        Kernel::MatmulBf16 => scalars[0].count() * scalars[1].count(),
        Kernel::GemvBf16 => scalars[0].count(),
        Kernel::GemvDualBf16 => scalars[0].count(),
        Kernel::AddInplaceF32Bf16 => scalars[0].count(),
        Kernel::SiluBf16 => scalars[0].count(),
        Kernel::SiluActBf16 => scalars[0].count(),
        Kernel::GatherRowsBf16 => scalars[0].count() * scalars[1].count(),
        Kernel::AddBiasBf16Inplace => scalars[0].count() * scalars[1].count(),
        Kernel::CopyBf16ToF16 => scalars[0].count(),
        Kernel::CopyF16ToBf16 => scalars[0].count(),
        Kernel::CopyBf16ToF32 => scalars[0].count(),
        Kernel::RopeNeoxFreqs => scalars[0].count() * scalars[1].count() * scalars[2].count(),
        Kernel::MhaNaiveFull => scalars[3].count() * scalars[1].count() * scalars[0].count(),
        Kernel::MhaRelativeFull => scalars[2].count() * scalars[1].count() * scalars[0].count(),
        Kernel::Conv1dPaddedF16 => scalars[1].count() * scalars[2].count(),
        Kernel::LeakyReluF16 => scalars[0].count(),
        Kernel::RepeatInterleaveF16 => scalars[0].count() * scalars[1].count() * scalars[2].count(),
        Kernel::ScaleF16 => scalars[0].count(),
        Kernel::UnfoldConv1dF16 => scalars[2].count() * (scalars[0].count() * scalars[3].count()),
        Kernel::ConvTranspose1dGeneralF16 => scalars[1].count() * scalars[3].count(),
        Kernel::SnakeF16 => scalars[0].count() * scalars[1].count(),
        Kernel::EluF16 => scalars[0].count(),
        Kernel::ReflectionPadLeftF16 => scalars[0].count() * (scalars[1].count() + 1),
        Kernel::ThirdF16 => scalars[0].count(),
        Kernel::LstmCellF16 => if i == 0 { scalars[0].count() } else if i == 1 { scalars[0].count() } else { (scalars[2].count() + 1) * scalars[0].count() },
        Kernel::Conv1dGeneralF16 => scalars[1].count() * scalars[3].count(),
        Kernel::InstanceNormAffineF16 => scalars[0].count() * scalars[1].count(),
        Kernel::ConvTranspose1dDepthwiseF16 => scalars[0].count() * scalars[2].count(),
        Kernel::UnfoldAdjacentF16 => scalars[1].count() * (2 * scalars[0].count()),
        Kernel::ScatterConvTransposePhaseF16 => scalars[1].count() * (scalars[0].count() * scalars[2].count()),
        Kernel::JoinRows => scalars[0].count() * (scalars[1].count() + scalars[2].count()),
        Kernel::AppendRow => scalars[0].count() * (scalars[1].count() + scalars[2].count()),
        Kernel::RepeatRows => scalars[2].count() * scalars[1].count(),
        Kernel::EmbedTokensF32 => scalars[0].count() * scalars[1].count(),
        Kernel::StyleAffine => scalars[0].count(),
        Kernel::StyleLayerNorm => scalars[0].count() * scalars[1].count(),
        Kernel::PhaseWeight => scalars[1].count() * scalars[0].count() * 2,
        Kernel::ReluBf16 => scalars[0].count(),
        Kernel::AddBf16 => scalars[0].count(),
        Kernel::OnesBf16 => scalars[0].count(),
        Kernel::ModulateBf16Batched => scalars[0].count() * scalars[1].count(),
        Kernel::GatedResidualBf16Batched => scalars[0].count() * scalars[1].count(),
        Kernel::AddRowF32 => scalars[0].count() * scalars[1].count(),
    }
}

impl Plan {
    /// Row-wise RMS normalisation of f16 data with a learned scale.
    pub fn rms_norm(&mut self, x: usize, weight: usize, out: usize, n_rows: u32, dim: u32, eps: Scalar)
        requires
            old(self).wf(),
            x < old(self).values().len(),
            n_rows * dim <= old(self).sizes()[x as int],
            weight < old(self).values().len(),
            dim <= old(self).sizes()[weight as int],
            out < old(self).values().len(),
            n_rows * dim <= old(self).sizes()[out as int],
        ensures
            final(self).wf(),
            final(self).sizes() == old(self).sizes(),
            final(self).values() == old(self).values().update(
                out as int,
                crate::device::value::rms_norm(old(self).values()[x as int], old(self).values()[weight as int], n_rows, dim, eps),
            ),
    {
        let op = Op {
            kernel: Kernel::RmsNorm,
            reads: vec![x, weight],
            writes: vec![out],
            scalars: vec![Scalar::Count(n_rows), Scalar::Count(dim), eps],
        };
        proof {
            assert(op.reads@ =~= seq![x, weight]);
            assert(op.writes@ =~= seq![out]);
            assert(op.scalars@ =~= seq![Scalar::Count(n_rows), Scalar::Count(dim), eps]);
            reveal_with_fuel(gather, 3);
            reveal_with_fuel(store, 2);
            assert(gather(self.values(), op.reads@) =~= seq![self.values()[x as int], self.values()[weight as int]]);
        }
        self.run(op);
    }

    /// Row-wise RMS normalisation from f32 to f16.
    pub fn rms_norm_f32in(&mut self, x: usize, weight: usize, out: usize, n_rows: u32, dim: u32, eps: Scalar)
        requires
            old(self).wf(),
            x < old(self).values().len(),
            n_rows * dim <= old(self).sizes()[x as int],
            weight < old(self).values().len(),
            dim <= old(self).sizes()[weight as int],
            out < old(self).values().len(),
            n_rows * dim <= old(self).sizes()[out as int],
        ensures
            final(self).wf(),
            final(self).sizes() == old(self).sizes(),
            final(self).values() == old(self).values().update(
                out as int,
                crate::device::value::rms_norm_f32in(old(self).values()[x as int], old(self).values()[weight as int], n_rows, dim, eps),
            ),
    {
        let op = Op {
            kernel: Kernel::RmsNormF32in,
            reads: vec![x, weight],
            writes: vec![out],
            scalars: vec![Scalar::Count(n_rows), Scalar::Count(dim), eps],
        };
        proof {
            assert(op.reads@ =~= seq![x, weight]);
            assert(op.writes@ =~= seq![out]);
            assert(op.scalars@ =~= seq![Scalar::Count(n_rows), Scalar::Count(dim), eps]);
            reveal_with_fuel(gather, 3);
            reveal_with_fuel(store, 2);
            assert(gather(self.values(), op.reads@) =~= seq![self.values()[x as int], self.values()[weight as int]]);
        }
        self.run(op);
    }

    /// `out = weight * x` for one row of `k` values.
    pub fn gemv_f16(&mut self, x: usize, weight: usize, out: usize, n: u32, k: u32)
        requires
            old(self).wf(),
            x < old(self).values().len(),
            k <= old(self).sizes()[x as int],
            weight < old(self).values().len(),
            n * k <= old(self).sizes()[weight as int],
            out < old(self).values().len(),
            n <= old(self).sizes()[out as int],
        ensures
            final(self).wf(),
            final(self).sizes() == old(self).sizes(),
            final(self).values() == old(self).values().update(
                out as int,
                crate::device::value::gemv_f16(old(self).values()[x as int], old(self).values()[weight as int], n, k),
            ),
    {
        let op = Op {
            kernel: Kernel::GemvF16,
            reads: vec![x, weight],
            writes: vec![out],
            scalars: vec![Scalar::Count(n), Scalar::Count(k)],
        };
        proof {
            assert(op.reads@ =~= seq![x, weight]);
            assert(op.writes@ =~= seq![out]);
            assert(op.scalars@ =~= seq![Scalar::Count(n), Scalar::Count(k)]);
            reveal_with_fuel(gather, 3);
            reveal_with_fuel(store, 2);
            assert(gather(self.values(), op.reads@) =~= seq![self.values()[x as int], self.values()[weight as int]]);
        }
        self.run(op);
    }

    /// Two matrix-vector products over one input row.
    pub fn gemv_dual_f16(&mut self, x: usize, weight_a: usize, weight_b: usize, out_a: usize, out_b: usize, n: u32, k: u32)
        requires
            old(self).wf(),
            x < old(self).values().len(),
            k <= old(self).sizes()[x as int],
            weight_a < old(self).values().len(),
            n * k <= old(self).sizes()[weight_a as int],
            weight_b < old(self).values().len(),
            n * k <= old(self).sizes()[weight_b as int],
            out_a < old(self).values().len(),
            n <= old(self).sizes()[out_a as int],
            out_b < old(self).values().len(),
            n <= old(self).sizes()[out_b as int],
            out_a != out_b,
        ensures
            final(self).wf(),
            final(self).sizes() == old(self).sizes(),
            final(self).values() == old(self).values().update(
                out_a as int,
                crate::device::value::gemv_dual_f16_out_a(old(self).values()[x as int], old(self).values()[weight_a as int], old(self).values()[weight_b as int], n, k),
            ).update(
                out_b as int,
                crate::device::value::gemv_dual_f16_out_b(old(self).values()[x as int], old(self).values()[weight_a as int], old(self).values()[weight_b as int], n, k),
            ),
    {
        let op = Op {
            kernel: Kernel::GemvDualF16,
            reads: vec![x, weight_a, weight_b],
            writes: vec![out_a, out_b],
            scalars: vec![Scalar::Count(n), Scalar::Count(k)],
        };
        proof {
            assert(op.reads@ =~= seq![x, weight_a, weight_b]);
            assert(op.writes@ =~= seq![out_a, out_b]);
            assert(op.scalars@ =~= seq![Scalar::Count(n), Scalar::Count(k)]);
            reveal_with_fuel(gather, 4);
            reveal_with_fuel(store, 3);
            assert(gather(self.values(), op.reads@) =~= seq![self.values()[x as int], self.values()[weight_a as int], self.values()[weight_b as int]]);
        }
        self.run(op);
    }

    /// `out[m, n] = a[m, k] * b[n, k]` transposed.
    pub fn matmul_f16(&mut self, a: usize, b: usize, out: usize, m: u32, n: u32, k: u32)
        requires
            old(self).wf(),
            a < old(self).values().len(),
            m * k <= old(self).sizes()[a as int],
            b < old(self).values().len(),
            n * k <= old(self).sizes()[b as int],
            out < old(self).values().len(),
            m * n <= old(self).sizes()[out as int],
        ensures
            final(self).wf(),
            final(self).sizes() == old(self).sizes(),
            final(self).values() == old(self).values().update(
                out as int,
                crate::device::value::matmul_f16(old(self).values()[a as int], old(self).values()[b as int], m, n, k),
            ),
    {
        let op = Op {
            kernel: Kernel::MatmulF16,
            reads: vec![a, b],
            writes: vec![out],
            scalars: vec![Scalar::Count(m), Scalar::Count(n), Scalar::Count(k)],
        };
        proof {
            assert(op.reads@ =~= seq![a, b]);
            assert(op.writes@ =~= seq![out]);
            assert(op.scalars@ =~= seq![Scalar::Count(m), Scalar::Count(n), Scalar::Count(k)]);
            reveal_with_fuel(gather, 3);
            reveal_with_fuel(store, 2);
            assert(gather(self.values(), op.reads@) =~= seq![self.values()[a as int], self.values()[b as int]]);
        }
        self.run(op);
    }

    /// Adds a bias row to every row.
    pub fn add_bias_f16_inplace(&mut self, x: usize, bias: usize, n_rows: u32, dim: u32)
        requires
            old(self).wf(),
            x < old(self).values().len(),
            n_rows * dim <= old(self).sizes()[x as int],
            bias < old(self).values().len(),
            dim <= old(self).sizes()[bias as int],
        ensures
            final(self).wf(),
            final(self).sizes() == old(self).sizes(),
            final(self).values() == old(self).values().update(
                x as int,
                crate::device::value::add_bias_f16_inplace(old(self).values()[x as int], old(self).values()[bias as int], n_rows, dim),
            ),
    {
        let op = Op {
            kernel: Kernel::AddBiasF16Inplace,
            reads: vec![x, bias],
            writes: vec![x],
            scalars: vec![Scalar::Count(n_rows), Scalar::Count(dim)],
        };
        proof {
            assert(op.reads@ =~= seq![x, bias]);
            assert(op.writes@ =~= seq![x]);
            assert(op.scalars@ =~= seq![Scalar::Count(n_rows), Scalar::Count(dim)]);
            reveal_with_fuel(gather, 3);
            reveal_with_fuel(store, 2);
            assert(gather(self.values(), op.reads@) =~= seq![self.values()[x as int], self.values()[bias as int]]);
        }
        self.run(op);
    }

    /// NeoX rotary embedding in place, starting at position `pos`.
    pub fn rope_neox(&mut self, x: usize, seq_len: u32, n_heads: u32, head_dim: u32, pos: u32, theta_base: Scalar)
        requires
            old(self).wf(),
            x < old(self).values().len(),
            seq_len * n_heads * head_dim <= old(self).sizes()[x as int],
        ensures
            final(self).wf(),
            final(self).sizes() == old(self).sizes(),
            final(self).values() == old(self).values().update(
                x as int,
                crate::device::value::rope_neox(old(self).values()[x as int], seq_len, n_heads, head_dim, pos, theta_base),
            ),
    {
        let op = Op {
            kernel: Kernel::RopeNeox,
            reads: vec![x],
            writes: vec![x],
            scalars: vec![Scalar::Count(seq_len), Scalar::Count(n_heads), Scalar::Count(head_dim), Scalar::Count(pos), theta_base],
        };
        proof {
            assert(op.reads@ =~= seq![x]);
            assert(op.writes@ =~= seq![x]);
            assert(op.scalars@ =~= seq![Scalar::Count(seq_len), Scalar::Count(n_heads), Scalar::Count(head_dim), Scalar::Count(pos), theta_base]);
            reveal_with_fuel(gather, 2);
            reveal_with_fuel(store, 2);
            assert(gather(self.values(), op.reads@) =~= seq![self.values()[x as int]]);
        }
        self.run(op);
    }

    /// Copies `n` values to element `offset` of the destination.
    pub fn copy_f16_at(&mut self, src: usize, dst: usize, n: u32, offset: usize)
        requires
            old(self).wf(),
            src < old(self).values().len(),
            n <= old(self).sizes()[src as int],
            dst < old(self).values().len(),
            offset + n <= old(self).sizes()[dst as int],
        ensures
            final(self).wf(),
            final(self).sizes() == old(self).sizes(),
            final(self).values() == old(self).values().update(
                dst as int,
                crate::device::value::copy_f16_at(old(self).values()[src as int], old(self).values()[dst as int], n, offset),
            ),
    {
        let op = Op {
            kernel: Kernel::CopyF16At,
            reads: vec![src, dst],
            writes: vec![dst],
            scalars: vec![Scalar::Count(n), Scalar::Size(offset)],
        };
        proof {
            assert(op.reads@ =~= seq![src, dst]);
            assert(op.writes@ =~= seq![dst]);
            assert(op.scalars@ =~= seq![Scalar::Count(n), Scalar::Size(offset)]);
            reveal_with_fuel(gather, 3);
            reveal_with_fuel(store, 2);
            assert(gather(self.values(), op.reads@) =~= seq![self.values()[src as int], self.values()[dst as int]]);
        }
        self.run(op);
    }

    /// Causal grouped-query attention over a key/value prefix.
    pub fn mha_fused(&mut self, q: usize, k: usize, v: usize, out: usize, head_dim: u32, n_heads: u32, n_kv_heads: u32, seq_len: u32, kv_len: u32, pos_offset: u32)
        requires
            old(self).wf(),
            q < old(self).values().len(),
            seq_len * n_heads * head_dim <= old(self).sizes()[q as int],
            k < old(self).values().len(),
            kv_len * n_kv_heads * head_dim <= old(self).sizes()[k as int],
            v < old(self).values().len(),
            kv_len * n_kv_heads * head_dim <= old(self).sizes()[v as int],
            out < old(self).values().len(),
            seq_len * n_heads * head_dim <= old(self).sizes()[out as int],
        ensures
            final(self).wf(),
            final(self).sizes() == old(self).sizes(),
            final(self).values() == old(self).values().update(
                out as int,
                crate::device::value::mha_fused(old(self).values()[q as int], old(self).values()[k as int], old(self).values()[v as int], head_dim, n_heads, n_kv_heads, seq_len, kv_len, pos_offset),
            ),
    {
        let op = Op {
            kernel: Kernel::MhaFused,
            reads: vec![q, k, v],
            writes: vec![out],
            scalars: vec![Scalar::Count(head_dim), Scalar::Count(n_heads), Scalar::Count(n_kv_heads), Scalar::Count(seq_len), Scalar::Count(kv_len), Scalar::Count(pos_offset)],
        };
        proof {
            assert(op.reads@ =~= seq![q, k, v]);
            assert(op.writes@ =~= seq![out]);
            assert(op.scalars@ =~= seq![Scalar::Count(head_dim), Scalar::Count(n_heads), Scalar::Count(n_kv_heads), Scalar::Count(seq_len), Scalar::Count(kv_len), Scalar::Count(pos_offset)]);
            reveal_with_fuel(gather, 4);
            reveal_with_fuel(store, 2);
            assert(gather(self.values(), op.reads@) =~= seq![self.values()[q as int], self.values()[k as int], self.values()[v as int]]);
        }
        self.run(op);
    }

    /// `hidden += delta` over `n` values.
    pub fn add_inplace_f32_f16(&mut self, hidden: usize, delta: usize, n: u32)
        requires
            old(self).wf(),
            hidden < old(self).values().len(),
            n <= old(self).sizes()[hidden as int],
            delta < old(self).values().len(),
            n <= old(self).sizes()[delta as int],
        ensures
            final(self).wf(),
            final(self).sizes() == old(self).sizes(),
            final(self).values() == old(self).values().update(
                hidden as int,
                crate::device::value::add_inplace_f32_f16(old(self).values()[hidden as int], old(self).values()[delta as int], n),
            ),
    {
        let op = Op {
            kernel: Kernel::AddInplaceF32F16,
            reads: vec![hidden, delta],
            writes: vec![hidden],
            scalars: vec![Scalar::Count(n)],
        };
        proof {
            assert(op.reads@ =~= seq![hidden, delta]);
            assert(op.writes@ =~= seq![hidden]);
            assert(op.scalars@ =~= seq![Scalar::Count(n)]);
            reveal_with_fuel(gather, 3);
            reveal_with_fuel(store, 2);
            assert(gather(self.values(), op.reads@) =~= seq![self.values()[hidden as int], self.values()[delta as int]]);
        }
        self.run(op);
    }

    /// `out = silu(gate) * up` over `n` values.
    pub fn silu(&mut self, gate: usize, up: usize, out: usize, n: u32)
        requires
            old(self).wf(),
            gate < old(self).values().len(),
            n <= old(self).sizes()[gate as int],
            up < old(self).values().len(),
            n <= old(self).sizes()[up as int],
            out < old(self).values().len(),
            n <= old(self).sizes()[out as int],
        ensures
            final(self).wf(),
            final(self).sizes() == old(self).sizes(),
            final(self).values() == old(self).values().update(
                out as int,
                crate::device::value::silu(old(self).values()[gate as int], old(self).values()[up as int], n),
            ),
    {
        let op = Op {
            kernel: Kernel::Silu,
            reads: vec![gate, up],
            writes: vec![out],
            scalars: vec![Scalar::Count(n)],
        };
        proof {
            assert(op.reads@ =~= seq![gate, up]);
            assert(op.writes@ =~= seq![out]);
            assert(op.scalars@ =~= seq![Scalar::Count(n)]);
            reveal_with_fuel(gather, 3);
            reveal_with_fuel(store, 2);
            assert(gather(self.values(), op.reads@) =~= seq![self.values()[gate as int], self.values()[up as int]]);
        }
        self.run(op);
    }

    /// Copies the rows of `table` that `ids` names.
    pub fn gather_rows_f16(&mut self, table: usize, ids: usize, out: usize, n_rows: u32, dim: u32)
        requires
            old(self).wf(),
            table < old(self).values().len(),
            0 <= old(self).sizes()[table as int],
            ids < old(self).values().len(),
            n_rows <= old(self).sizes()[ids as int],
            out < old(self).values().len(),
            n_rows * dim <= old(self).sizes()[out as int],
        ensures
            final(self).wf(),
            final(self).sizes() == old(self).sizes(),
            final(self).values() == old(self).values().update(
                out as int,
                crate::device::value::gather_rows_f16(old(self).values()[table as int], old(self).values()[ids as int], n_rows, dim),
            ),
    {
        let op = Op {
            kernel: Kernel::GatherRowsF16,
            reads: vec![table, ids],
            writes: vec![out],
            scalars: vec![Scalar::Count(n_rows), Scalar::Count(dim)],
        };
        proof {
            assert(op.reads@ =~= seq![table, ids]);
            assert(op.writes@ =~= seq![out]);
            assert(op.scalars@ =~= seq![Scalar::Count(n_rows), Scalar::Count(dim)]);
            reveal_with_fuel(gather, 3);
            reveal_with_fuel(store, 2);
            assert(gather(self.values(), op.reads@) =~= seq![self.values()[table as int], self.values()[ids as int]]);
        }
        self.run(op);
    }

    /// `out = silu(x)` over `n` values.
    pub fn silu_act_f16(&mut self, x: usize, out: usize, n: u32)
        requires
            old(self).wf(),
            x < old(self).values().len(),
            n <= old(self).sizes()[x as int],
            out < old(self).values().len(),
            n <= old(self).sizes()[out as int],
        ensures
            final(self).wf(),
            final(self).sizes() == old(self).sizes(),
            final(self).values() == old(self).values().update(
                out as int,
                crate::device::value::silu_act_f16(old(self).values()[x as int], n),
            ),
    {
        let op = Op {
            kernel: Kernel::SiluActF16,
            reads: vec![x],
            writes: vec![out],
            scalars: vec![Scalar::Count(n)],
        };
        proof {
            assert(op.reads@ =~= seq![x]);
            assert(op.writes@ =~= seq![out]);
            assert(op.scalars@ =~= seq![Scalar::Count(n)]);
            reveal_with_fuel(gather, 2);
            reveal_with_fuel(store, 2);
            assert(gather(self.values(), op.reads@) =~= seq![self.values()[x as int]]);
        }
        self.run(op);
    }

    /// Index of the largest of `n` values.
    pub fn argmax_f16(&mut self, x: usize, out: usize, n: u32)
        requires
            old(self).wf(),
            x < old(self).values().len(),
            n <= old(self).sizes()[x as int],
            out < old(self).values().len(),
            1 <= old(self).sizes()[out as int],
        ensures
            final(self).wf(),
            final(self).sizes() == old(self).sizes(),
            final(self).values() == old(self).values().update(
                out as int,
                crate::device::value::argmax_f16(old(self).values()[x as int], n),
            ),
    {
        let op = Op {
            kernel: Kernel::ArgmaxF16,
            reads: vec![x],
            writes: vec![out],
            scalars: vec![Scalar::Count(n)],
        };
        proof {
            assert(op.reads@ =~= seq![x]);
            assert(op.writes@ =~= seq![out]);
            assert(op.scalars@ =~= seq![Scalar::Count(n)]);
            reveal_with_fuel(gather, 2);
            reveal_with_fuel(store, 2);
            assert(gather(self.values(), op.reads@) =~= seq![self.values()[x as int]]);
        }
        self.run(op);
    }

    /// Narrows `n` values.
    pub fn copy_f32_to_f16(&mut self, src: usize, dst: usize, n: u32)
        requires
            old(self).wf(),
            src < old(self).values().len(),
            n <= old(self).sizes()[src as int],
            dst < old(self).values().len(),
            n <= old(self).sizes()[dst as int],
        ensures
            final(self).wf(),
            final(self).sizes() == old(self).sizes(),
            final(self).values() == old(self).values().update(
                dst as int,
                crate::device::value::copy_f32_to_f16(old(self).values()[src as int], n),
            ),
    {
        let op = Op {
            kernel: Kernel::CopyF32ToF16,
            reads: vec![src],
            writes: vec![dst],
            scalars: vec![Scalar::Count(n)],
        };
        proof {
            assert(op.reads@ =~= seq![src]);
            assert(op.writes@ =~= seq![dst]);
            assert(op.scalars@ =~= seq![Scalar::Count(n)]);
            reveal_with_fuel(gather, 2);
            reveal_with_fuel(store, 2);
            assert(gather(self.values(), op.reads@) =~= seq![self.values()[src as int]]);
        }
        self.run(op);
    }

    /// Widens `n` values.
    pub fn copy_f16_to_f32(&mut self, src: usize, dst: usize, n: u32)
        requires
            old(self).wf(),
            src < old(self).values().len(),
            n <= old(self).sizes()[src as int],
            dst < old(self).values().len(),
            n <= old(self).sizes()[dst as int],
        ensures
            final(self).wf(),
            final(self).sizes() == old(self).sizes(),
            final(self).values() == old(self).values().update(
                dst as int,
                crate::device::value::copy_f16_to_f32(old(self).values()[src as int], n),
            ),
    {
        let op = Op {
            kernel: Kernel::CopyF16ToF32,
            reads: vec![src],
            writes: vec![dst],
            scalars: vec![Scalar::Count(n)],
        };
        proof {
            assert(op.reads@ =~= seq![src]);
            assert(op.writes@ =~= seq![dst]);
            assert(op.scalars@ =~= seq![Scalar::Count(n)]);
            reveal_with_fuel(gather, 2);
            reveal_with_fuel(store, 2);
            assert(gather(self.values(), op.reads@) =~= seq![self.values()[src as int]]);
        }
        self.run(op);
    }

    /// `out = a + b` over `n` values.
    pub fn add_f16(&mut self, a: usize, b: usize, out: usize, n: u32)
        requires
            old(self).wf(),
            a < old(self).values().len(),
            n <= old(self).sizes()[a as int],
            b < old(self).values().len(),
            n <= old(self).sizes()[b as int],
            out < old(self).values().len(),
            n <= old(self).sizes()[out as int],
        ensures
            final(self).wf(),
            final(self).sizes() == old(self).sizes(),
            final(self).values() == old(self).values().update(
                out as int,
                crate::device::value::add_f16(old(self).values()[a as int], old(self).values()[b as int], n),
            ),
    {
        let op = Op {
            kernel: Kernel::AddF16,
            reads: vec![a, b],
            writes: vec![out],
            scalars: vec![Scalar::Count(n)],
        };
        proof {
            assert(op.reads@ =~= seq![a, b]);
            assert(op.writes@ =~= seq![out]);
            assert(op.scalars@ =~= seq![Scalar::Count(n)]);
            reveal_with_fuel(gather, 3);
            reveal_with_fuel(store, 2);
            assert(gather(self.values(), op.reads@) =~= seq![self.values()[a as int], self.values()[b as int]]);
        }
        self.run(op);
    }

    /// `out[i] = a[i] * b[i % stride]` over `n` values.
    pub fn mul_f16_broadcast(&mut self, a: usize, b: usize, out: usize, n: u32, stride: u32)
        requires
            old(self).wf(),
            a < old(self).values().len(),
            n <= old(self).sizes()[a as int],
            b < old(self).values().len(),
            stride <= old(self).sizes()[b as int],
            out < old(self).values().len(),
            n <= old(self).sizes()[out as int],
        ensures
            final(self).wf(),
            final(self).sizes() == old(self).sizes(),
            final(self).values() == old(self).values().update(
                out as int,
                crate::device::value::mul_f16_broadcast(old(self).values()[a as int], old(self).values()[b as int], n, stride),
            ),
    {
        let op = Op {
            kernel: Kernel::MulF16Broadcast,
            reads: vec![a, b],
            writes: vec![out],
            scalars: vec![Scalar::Count(n), Scalar::Count(stride)],
        };
        proof {
            assert(op.reads@ =~= seq![a, b]);
            assert(op.writes@ =~= seq![out]);
            assert(op.scalars@ =~= seq![Scalar::Count(n), Scalar::Count(stride)]);
            reveal_with_fuel(gather, 3);
            reveal_with_fuel(store, 2);
            assert(gather(self.values(), op.reads@) =~= seq![self.values()[a as int], self.values()[b as int]]);
        }
        self.run(op);
    }

    /// Causal convolution over channel-first data.
    pub fn conv1d_causal_f16(&mut self, x: usize, weight: usize, bias: usize, out: usize, in_channels: u32, out_channels: u32, seq_len: u32, kernel_size: u32, dilation: u32, groups: u32)
        requires
            old(self).wf(),
            x < old(self).values().len(),
            in_channels * seq_len <= old(self).sizes()[x as int],
            weight < old(self).values().len(),
            out_channels * (in_channels / groups) * kernel_size <= old(self).sizes()[weight as int],
            bias < old(self).values().len(),
            out_channels <= old(self).sizes()[bias as int],
            out < old(self).values().len(),
            out_channels * seq_len <= old(self).sizes()[out as int],
        ensures
            final(self).wf(),
            final(self).sizes() == old(self).sizes(),
            final(self).values() == old(self).values().update(
                out as int,
                crate::device::value::conv1d_causal_f16(old(self).values()[x as int], old(self).values()[weight as int], old(self).values()[bias as int], in_channels, out_channels, seq_len, kernel_size, dilation, groups),
            ),
    {
        let op = Op {
            kernel: Kernel::Conv1dCausalF16,
            reads: vec![x, weight, bias],
            writes: vec![out],
            scalars: vec![Scalar::Count(in_channels), Scalar::Count(out_channels), Scalar::Count(seq_len), Scalar::Count(kernel_size), Scalar::Count(dilation), Scalar::Count(groups)],
        };
        proof {
            assert(op.reads@ =~= seq![x, weight, bias]);
            assert(op.writes@ =~= seq![out]);
            assert(op.scalars@ =~= seq![Scalar::Count(in_channels), Scalar::Count(out_channels), Scalar::Count(seq_len), Scalar::Count(kernel_size), Scalar::Count(dilation), Scalar::Count(groups)]);
            reveal_with_fuel(gather, 4);
            reveal_with_fuel(store, 2);
            assert(gather(self.values(), op.reads@) =~= seq![self.values()[x as int], self.values()[weight as int], self.values()[bias as int]]);
        }
        self.run(op);
    }

    /// Causal transposed convolution over channel-first data.
    pub fn conv_transpose1d_causal_f16(&mut self, x: usize, weight: usize, bias: usize, out: usize, in_channels: u32, out_channels: u32, input_len: u32, kernel_size: u32, stride: u32)
        requires
            old(self).wf(),
            x < old(self).values().len(),
            in_channels * input_len <= old(self).sizes()[x as int],
            weight < old(self).values().len(),
            in_channels * out_channels * kernel_size <= old(self).sizes()[weight as int],
            bias < old(self).values().len(),
            out_channels <= old(self).sizes()[bias as int],
            out < old(self).values().len(),
            out_channels * (input_len * stride) <= old(self).sizes()[out as int],
        ensures
            final(self).wf(),
            final(self).sizes() == old(self).sizes(),
            final(self).values() == old(self).values().update(
                out as int,
                crate::device::value::conv_transpose1d_causal_f16(old(self).values()[x as int], old(self).values()[weight as int], old(self).values()[bias as int], in_channels, out_channels, input_len, kernel_size, stride),
            ),
    {
        let op = Op {
            kernel: Kernel::ConvTranspose1dCausalF16,
            reads: vec![x, weight, bias],
            writes: vec![out],
            scalars: vec![Scalar::Count(in_channels), Scalar::Count(out_channels), Scalar::Count(input_len), Scalar::Count(kernel_size), Scalar::Count(stride)],
        };
        proof {
            assert(op.reads@ =~= seq![x, weight, bias]);
            assert(op.writes@ =~= seq![out]);
            assert(op.scalars@ =~= seq![Scalar::Count(in_channels), Scalar::Count(out_channels), Scalar::Count(input_len), Scalar::Count(kernel_size), Scalar::Count(stride)]);
            reveal_with_fuel(gather, 4);
            reveal_with_fuel(store, 2);
            assert(gather(self.values(), op.reads@) =~= seq![self.values()[x as int], self.values()[weight as int], self.values()[bias as int]]);
        }
        self.run(op);
    }

    /// Transposes a row-major matrix.
    pub fn transpose_f16(&mut self, x: usize, out: usize, rows: u32, cols: u32)
        requires
            old(self).wf(),
            x < old(self).values().len(),
            rows * cols <= old(self).sizes()[x as int],
            out < old(self).values().len(),
            rows * cols <= old(self).sizes()[out as int],
        ensures
            final(self).wf(),
            final(self).sizes() == old(self).sizes(),
            final(self).values() == old(self).values().update(
                out as int,
                crate::device::value::transpose_f16(old(self).values()[x as int], rows, cols),
            ),
    {
        let op = Op {
            kernel: Kernel::TransposeF16,
            reads: vec![x],
            writes: vec![out],
            scalars: vec![Scalar::Count(rows), Scalar::Count(cols)],
        };
        proof {
            assert(op.reads@ =~= seq![x]);
            assert(op.writes@ =~= seq![out]);
            assert(op.scalars@ =~= seq![Scalar::Count(rows), Scalar::Count(cols)]);
            reveal_with_fuel(gather, 2);
            reveal_with_fuel(store, 2);
            assert(gather(self.values(), op.reads@) =~= seq![self.values()[x as int]]);
        }
        self.run(op);
    }

    /// Row-wise layer normalisation from f32 to f16.
    pub fn layer_norm_f32in(&mut self, x: usize, weight: usize, bias: usize, out: usize, n_rows: u32, dim: u32, eps: Scalar)
        requires
            old(self).wf(),
            x < old(self).values().len(),
            n_rows * dim <= old(self).sizes()[x as int],
            weight < old(self).values().len(),
            dim <= old(self).sizes()[weight as int],
            bias < old(self).values().len(),
            dim <= old(self).sizes()[bias as int],
            out < old(self).values().len(),
            n_rows * dim <= old(self).sizes()[out as int],
        ensures
            final(self).wf(),
            final(self).sizes() == old(self).sizes(),
            final(self).values() == old(self).values().update(
                out as int,
                crate::device::value::layer_norm_f32in(old(self).values()[x as int], old(self).values()[weight as int], old(self).values()[bias as int], n_rows, dim, eps),
            ),
    {
        let op = Op {
            kernel: Kernel::LayerNormF32in,
            reads: vec![x, weight, bias],
            writes: vec![out],
            scalars: vec![Scalar::Count(n_rows), Scalar::Count(dim), eps],
        };
        proof {
            assert(op.reads@ =~= seq![x, weight, bias]);
            assert(op.writes@ =~= seq![out]);
            assert(op.scalars@ =~= seq![Scalar::Count(n_rows), Scalar::Count(dim), eps]);
            reveal_with_fuel(gather, 4);
            reveal_with_fuel(store, 2);
            assert(gather(self.values(), op.reads@) =~= seq![self.values()[x as int], self.values()[weight as int], self.values()[bias as int]]);
        }
        self.run(op);
    }

    /// `out = gelu(x)` over `n` values.
    pub fn gelu_erf_f16(&mut self, x: usize, out: usize, n: u32)
        requires
            old(self).wf(),
            x < old(self).values().len(),
            n <= old(self).sizes()[x as int],
            out < old(self).values().len(),
            n <= old(self).sizes()[out as int],
        ensures
            final(self).wf(),
            final(self).sizes() == old(self).sizes(),
            final(self).values() == old(self).values().update(
                out as int,
                crate::device::value::gelu_erf_f16(old(self).values()[x as int], n),
            ),
    {
        let op = Op {
            kernel: Kernel::GeluErfF16,
            reads: vec![x],
            writes: vec![out],
            scalars: vec![Scalar::Count(n)],
        };
        proof {
            assert(op.reads@ =~= seq![x]);
            assert(op.writes@ =~= seq![out]);
            assert(op.scalars@ =~= seq![Scalar::Count(n)]);
            reveal_with_fuel(gather, 2);
            reveal_with_fuel(store, 2);
            assert(gather(self.values(), op.reads@) =~= seq![self.values()[x as int]]);
        }
        self.run(op);
    }

    /// Causal windowed attention with an explicit scale and soft cap.
    pub fn mha_fused_scaled(&mut self, q: usize, k: usize, v: usize, out: usize, head_dim: u32, n_heads: u32, n_kv_heads: u32, seq_len: u32, kv_len: u32, pos_offset: u32, window: u32, scale: Scalar, softcap: Scalar)
        requires
            old(self).wf(),
            q < old(self).values().len(),
            seq_len * n_heads * head_dim <= old(self).sizes()[q as int],
            k < old(self).values().len(),
            kv_len * n_kv_heads * head_dim <= old(self).sizes()[k as int],
            v < old(self).values().len(),
            kv_len * n_kv_heads * head_dim <= old(self).sizes()[v as int],
            out < old(self).values().len(),
            seq_len * n_heads * head_dim <= old(self).sizes()[out as int],
        ensures
            final(self).wf(),
            final(self).sizes() == old(self).sizes(),
            final(self).values() == old(self).values().update(
                out as int,
                crate::device::value::mha_fused_scaled(old(self).values()[q as int], old(self).values()[k as int], old(self).values()[v as int], head_dim, n_heads, n_kv_heads, seq_len, kv_len, pos_offset, window, scale, softcap),
            ),
    {
        let op = Op {
            kernel: Kernel::MhaFusedScaled,
            reads: vec![q, k, v],
            writes: vec![out],
            scalars: vec![Scalar::Count(head_dim), Scalar::Count(n_heads), Scalar::Count(n_kv_heads), Scalar::Count(seq_len), Scalar::Count(kv_len), Scalar::Count(pos_offset), Scalar::Count(window), scale, softcap],
        };
        proof {
            assert(op.reads@ =~= seq![q, k, v]);
            assert(op.writes@ =~= seq![out]);
            assert(op.scalars@ =~= seq![Scalar::Count(head_dim), Scalar::Count(n_heads), Scalar::Count(n_kv_heads), Scalar::Count(seq_len), Scalar::Count(kv_len), Scalar::Count(pos_offset), Scalar::Count(window), scale, softcap]);
            reveal_with_fuel(gather, 4);
            reveal_with_fuel(store, 2);
            assert(gather(self.values(), op.reads@) =~= seq![self.values()[q as int], self.values()[k as int], self.values()[v as int]]);
        }
        self.run(op);
    }

    /// ELU in place over `n` values.
    pub fn elu(&mut self, values: usize, n: u32)
        requires
            old(self).wf(),
            values < old(self).values().len(),
            n <= old(self).sizes()[values as int],
        ensures
            final(self).wf(),
            final(self).sizes() == old(self).sizes(),
            final(self).values() == old(self).values().update(
                values as int,
                crate::device::value::elu(old(self).values()[values as int], n),
            ),
    {
        let op = Op {
            kernel: Kernel::Elu,
            reads: vec![values],
            writes: vec![values],
            scalars: vec![Scalar::Count(n)],
        };
        proof {
            assert(op.reads@ =~= seq![values]);
            assert(op.writes@ =~= seq![values]);
            assert(op.scalars@ =~= seq![Scalar::Count(n)]);
            reveal_with_fuel(gather, 2);
            reveal_with_fuel(store, 2);
            assert(gather(self.values(), op.reads@) =~= seq![self.values()[values as int]]);
        }
        self.run(op);
    }

    /// Copies `n` elements from the start of one buffer to another.
    pub fn copy_buffer(&mut self, src: usize, dst: usize, n: usize)
        requires
            old(self).wf(),
            src < old(self).values().len(),
            n <= old(self).sizes()[src as int],
            dst < old(self).values().len(),
            n <= old(self).sizes()[dst as int],
        ensures
            final(self).wf(),
            final(self).sizes() == old(self).sizes(),
            final(self).values() == old(self).values().update(
                dst as int,
                crate::device::value::copy_buffer(old(self).values()[src as int], n),
            ),
    {
        let op = Op {
            kernel: Kernel::CopyBuffer,
            reads: vec![src],
            writes: vec![dst],
            scalars: vec![Scalar::Size(n)],
        };
        proof {
            assert(op.reads@ =~= seq![src]);
            assert(op.writes@ =~= seq![dst]);
            assert(op.scalars@ =~= seq![Scalar::Size(n)]);
            reveal_with_fuel(gather, 2);
            reveal_with_fuel(store, 2);
            assert(gather(self.values(), op.reads@) =~= seq![self.values()[src as int]]);
        }
        self.run(op);
    }

    /// Gathers the receptive field of every output of a causal strided convolution.
    pub fn unfold_causal_stride(&mut self, input: usize, output: usize, channels: u32, input_len: u32, output_len: u32, kernel_size: u32, stride: u32, dilation: u32)
        requires
            old(self).wf(),
            input < old(self).values().len(),
            channels * input_len <= old(self).sizes()[input as int],
            output < old(self).values().len(),
            output_len * (channels * kernel_size) <= old(self).sizes()[output as int],
        ensures
            final(self).wf(),
            final(self).sizes() == old(self).sizes(),
            final(self).values() == old(self).values().update(
                output as int,
                crate::device::value::unfold_causal_stride(old(self).values()[input as int], channels, input_len, output_len, kernel_size, stride, dilation),
            ),
    {
        let op = Op {
            kernel: Kernel::UnfoldCausalStride,
            reads: vec![input],
            writes: vec![output],
            scalars: vec![Scalar::Count(channels), Scalar::Count(input_len), Scalar::Count(output_len), Scalar::Count(kernel_size), Scalar::Count(stride), Scalar::Count(dilation)],
        };
        proof {
            assert(op.reads@ =~= seq![input]);
            assert(op.writes@ =~= seq![output]);
            assert(op.scalars@ =~= seq![Scalar::Count(channels), Scalar::Count(input_len), Scalar::Count(output_len), Scalar::Count(kernel_size), Scalar::Count(stride), Scalar::Count(dilation)]);
            reveal_with_fuel(gather, 2);
            reveal_with_fuel(store, 2);
            assert(gather(self.values(), op.reads@) =~= seq![self.values()[input as int]]);
        }
        self.run(op);
    }

    /// Index of the closest codebook row of every frame.
    pub fn nearest_codebook(&mut self, residual: usize, codebook: usize, indices: usize, frames: u32, entries: u32, dim: u32)
        requires
            old(self).wf(),
            residual < old(self).values().len(),
            frames * dim <= old(self).sizes()[residual as int],
            codebook < old(self).values().len(),
            entries * dim <= old(self).sizes()[codebook as int],
            indices < old(self).values().len(),
            frames <= old(self).sizes()[indices as int],
        ensures
            final(self).wf(),
            final(self).sizes() == old(self).sizes(),
            final(self).values() == old(self).values().update(
                indices as int,
                crate::device::value::nearest_codebook(old(self).values()[residual as int], old(self).values()[codebook as int], frames, entries, dim),
            ),
    {
        let op = Op {
            kernel: Kernel::NearestCodebook,
            reads: vec![residual, codebook],
            writes: vec![indices],
            scalars: vec![Scalar::Count(frames), Scalar::Count(entries), Scalar::Count(dim)],
        };
        proof {
            assert(op.reads@ =~= seq![residual, codebook]);
            assert(op.writes@ =~= seq![indices]);
            assert(op.scalars@ =~= seq![Scalar::Count(frames), Scalar::Count(entries), Scalar::Count(dim)]);
            reveal_with_fuel(gather, 3);
            reveal_with_fuel(store, 2);
            assert(gather(self.values(), op.reads@) =~= seq![self.values()[residual as int], self.values()[codebook as int]]);
        }
        self.run(op);
    }

    /// Subtracts the chosen codebook row from every frame.
    pub fn subtract_codebook(&mut self, residual: usize, codebook: usize, indices: usize, frames: u32, dim: u32)
        requires
            old(self).wf(),
            residual < old(self).values().len(),
            frames * dim <= old(self).sizes()[residual as int],
            codebook < old(self).values().len(),
            0 <= old(self).sizes()[codebook as int],
            indices < old(self).values().len(),
            frames <= old(self).sizes()[indices as int],
        ensures
            final(self).wf(),
            final(self).sizes() == old(self).sizes(),
            final(self).values() == old(self).values().update(
                residual as int,
                crate::device::value::subtract_codebook(old(self).values()[residual as int], old(self).values()[codebook as int], old(self).values()[indices as int], frames, dim),
            ),
    {
        let op = Op {
            kernel: Kernel::SubtractCodebook,
            reads: vec![residual, codebook, indices],
            writes: vec![residual],
            scalars: vec![Scalar::Count(frames), Scalar::Count(dim)],
        };
        proof {
            assert(op.reads@ =~= seq![residual, codebook, indices]);
            assert(op.writes@ =~= seq![residual]);
            assert(op.scalars@ =~= seq![Scalar::Count(frames), Scalar::Count(dim)]);
            reveal_with_fuel(gather, 4);
            reveal_with_fuel(store, 2);
            assert(gather(self.values(), op.reads@) =~= seq![self.values()[residual as int], self.values()[codebook as int], self.values()[indices as int]]);
        }
        self.run(op);
    }

    /// Gathers the receptive field of every frame, reflecting at both ends.
    pub fn unfold_reflect(&mut self, input: usize, output: usize, channels: u32, seq_len: u32, kernel_size: u32, dilation: u32)
        requires
            old(self).wf(),
            input < old(self).values().len(),
            channels * seq_len <= old(self).sizes()[input as int],
            output < old(self).values().len(),
            seq_len * (channels * kernel_size) <= old(self).sizes()[output as int],
        ensures
            final(self).wf(),
            final(self).sizes() == old(self).sizes(),
            final(self).values() == old(self).values().update(
                output as int,
                crate::device::value::unfold_reflect(old(self).values()[input as int], channels, seq_len, kernel_size, dilation),
            ),
    {
        let op = Op {
            kernel: Kernel::UnfoldReflect,
            reads: vec![input],
            writes: vec![output],
            scalars: vec![Scalar::Count(channels), Scalar::Count(seq_len), Scalar::Count(kernel_size), Scalar::Count(dilation)],
        };
        proof {
            assert(op.reads@ =~= seq![input]);
            assert(op.writes@ =~= seq![output]);
            assert(op.scalars@ =~= seq![Scalar::Count(channels), Scalar::Count(seq_len), Scalar::Count(kernel_size), Scalar::Count(dilation)]);
            reveal_with_fuel(gather, 2);
            reveal_with_fuel(store, 2);
            assert(gather(self.values(), op.reads@) =~= seq![self.values()[input as int]]);
        }
        self.run(op);
    }

    /// ReLU in place over `n` values.
    pub fn relu(&mut self, values: usize, n: u32)
        requires
            old(self).wf(),
            values < old(self).values().len(),
            n <= old(self).sizes()[values as int],
        ensures
            final(self).wf(),
            final(self).sizes() == old(self).sizes(),
            final(self).values() == old(self).values().update(
                values as int,
                crate::device::value::relu(old(self).values()[values as int], n),
            ),
    {
        let op = Op {
            kernel: Kernel::Relu,
            reads: vec![values],
            writes: vec![values],
            scalars: vec![Scalar::Count(n)],
        };
        proof {
            assert(op.reads@ =~= seq![values]);
            assert(op.writes@ =~= seq![values]);
            assert(op.scalars@ =~= seq![Scalar::Count(n)]);
            reveal_with_fuel(gather, 2);
            reveal_with_fuel(store, 2);
            assert(gather(self.values(), op.reads@) =~= seq![self.values()[values as int]]);
        }
        self.run(op);
    }

    /// Hyperbolic tangent in place over `n` values.
    pub fn tanh(&mut self, values: usize, n: u32)
        requires
            old(self).wf(),
            values < old(self).values().len(),
            n <= old(self).sizes()[values as int],
        ensures
            final(self).wf(),
            final(self).sizes() == old(self).sizes(),
            final(self).values() == old(self).values().update(
                values as int,
                crate::device::value::tanh(old(self).values()[values as int], n),
            ),
    {
        let op = Op {
            kernel: Kernel::Tanh,
            reads: vec![values],
            writes: vec![values],
            scalars: vec![Scalar::Count(n)],
        };
        proof {
            assert(op.reads@ =~= seq![values]);
            assert(op.writes@ =~= seq![values]);
            assert(op.scalars@ =~= seq![Scalar::Count(n)]);
            reveal_with_fuel(gather, 2);
            reveal_with_fuel(store, 2);
            assert(gather(self.values(), op.reads@) =~= seq![self.values()[values as int]]);
        }
        self.run(op);
    }

    /// Logistic function in place over `n` values.
    pub fn sigmoid(&mut self, values: usize, n: u32)
        requires
            old(self).wf(),
            values < old(self).values().len(),
            n <= old(self).sizes()[values as int],
        ensures
            final(self).wf(),
            final(self).sizes() == old(self).sizes(),
            final(self).values() == old(self).values().update(
                values as int,
                crate::device::value::sigmoid(old(self).values()[values as int], n),
            ),
    {
        let op = Op {
            kernel: Kernel::Sigmoid,
            reads: vec![values],
            writes: vec![values],
            scalars: vec![Scalar::Count(n)],
        };
        proof {
            assert(op.reads@ =~= seq![values]);
            assert(op.writes@ =~= seq![values]);
            assert(op.scalars@ =~= seq![Scalar::Count(n)]);
            reveal_with_fuel(gather, 2);
            reveal_with_fuel(store, 2);
            assert(gather(self.values(), op.reads@) =~= seq![self.values()[values as int]]);
        }
        self.run(op);
    }

    /// Mean of every channel.
    pub fn channel_mean(&mut self, input: usize, mean: usize, channels: u32, seq_len: u32)
        requires
            old(self).wf(),
            input < old(self).values().len(),
            channels * seq_len <= old(self).sizes()[input as int],
            mean < old(self).values().len(),
            channels <= old(self).sizes()[mean as int],
        ensures
            final(self).wf(),
            final(self).sizes() == old(self).sizes(),
            final(self).values() == old(self).values().update(
                mean as int,
                crate::device::value::channel_mean(old(self).values()[input as int], channels, seq_len),
            ),
    {
        let op = Op {
            kernel: Kernel::ChannelMean,
            reads: vec![input],
            writes: vec![mean],
            scalars: vec![Scalar::Count(channels), Scalar::Count(seq_len)],
        };
        proof {
            assert(op.reads@ =~= seq![input]);
            assert(op.writes@ =~= seq![mean]);
            assert(op.scalars@ =~= seq![Scalar::Count(channels), Scalar::Count(seq_len)]);
            reveal_with_fuel(gather, 2);
            reveal_with_fuel(store, 2);
            assert(gather(self.values(), op.reads@) =~= seq![self.values()[input as int]]);
        }
        self.run(op);
    }

    /// Scales every channel by one factor.
    pub fn channel_scale(&mut self, input: usize, scale: usize, output: usize, channels: u32, seq_len: u32)
        requires
            old(self).wf(),
            input < old(self).values().len(),
            channels * seq_len <= old(self).sizes()[input as int],
            scale < old(self).values().len(),
            channels <= old(self).sizes()[scale as int],
            output < old(self).values().len(),
            channels * seq_len <= old(self).sizes()[output as int],
        ensures
            final(self).wf(),
            final(self).sizes() == old(self).sizes(),
            final(self).values() == old(self).values().update(
                output as int,
                crate::device::value::channel_scale(old(self).values()[input as int], old(self).values()[scale as int], channels, seq_len),
            ),
    {
        let op = Op {
            kernel: Kernel::ChannelScale,
            reads: vec![input, scale],
            writes: vec![output],
            scalars: vec![Scalar::Count(channels), Scalar::Count(seq_len)],
        };
        proof {
            assert(op.reads@ =~= seq![input, scale]);
            assert(op.writes@ =~= seq![output]);
            assert(op.scalars@ =~= seq![Scalar::Count(channels), Scalar::Count(seq_len)]);
            reveal_with_fuel(gather, 3);
            reveal_with_fuel(store, 2);
            assert(gather(self.values(), op.reads@) =~= seq![self.values()[input as int], self.values()[scale as int]]);
        }
        self.run(op);
    }

    /// Copies channels into a wider channel-first buffer at a channel offset.
    pub fn append_channel_block(&mut self, input: usize, output: usize, input_channels: u32, output_channels: u32, channel_offset: u32, seq_len: u32)
        requires
            old(self).wf(),
            input < old(self).values().len(),
            input_channels * seq_len <= old(self).sizes()[input as int],
            output < old(self).values().len(),
            (channel_offset + input_channels) * seq_len <= old(self).sizes()[output as int],
        ensures
            final(self).wf(),
            final(self).sizes() == old(self).sizes(),
            final(self).values() == old(self).values().update(
                output as int,
                crate::device::value::append_channel_block(old(self).values()[input as int], old(self).values()[output as int], input_channels, output_channels, channel_offset, seq_len),
            ),
    {
        let op = Op {
            kernel: Kernel::AppendChannelBlock,
            reads: vec![input, output],
            writes: vec![output],
            scalars: vec![Scalar::Count(input_channels), Scalar::Count(output_channels), Scalar::Count(channel_offset), Scalar::Count(seq_len)],
        };
        proof {
            assert(op.reads@ =~= seq![input, output]);
            assert(op.writes@ =~= seq![output]);
            assert(op.scalars@ =~= seq![Scalar::Count(input_channels), Scalar::Count(output_channels), Scalar::Count(channel_offset), Scalar::Count(seq_len)]);
            reveal_with_fuel(gather, 3);
            reveal_with_fuel(store, 2);
            assert(gather(self.values(), op.reads@) =~= seq![self.values()[input as int], self.values()[output as int]]);
        }
        self.run(op);
    }

    /// Stacks the input with its mean and deviation repeated over time.
    pub fn append_context(&mut self, input: usize, mean: usize, stddev: usize, output: usize, channels: u32, seq_len: u32)
        requires
            old(self).wf(),
            input < old(self).values().len(),
            channels * seq_len <= old(self).sizes()[input as int],
            mean < old(self).values().len(),
            channels <= old(self).sizes()[mean as int],
            stddev < old(self).values().len(),
            channels <= old(self).sizes()[stddev as int],
            output < old(self).values().len(),
            3 * (channels * seq_len) <= old(self).sizes()[output as int],
        ensures
            final(self).wf(),
            final(self).sizes() == old(self).sizes(),
            final(self).values() == old(self).values().update(
                output as int,
                crate::device::value::append_context(old(self).values()[input as int], old(self).values()[mean as int], old(self).values()[stddev as int], channels, seq_len),
            ),
    {
        let op = Op {
            kernel: Kernel::AppendContext,
            reads: vec![input, mean, stddev],
            writes: vec![output],
            scalars: vec![Scalar::Count(channels), Scalar::Count(seq_len)],
        };
        proof {
            assert(op.reads@ =~= seq![input, mean, stddev]);
            assert(op.writes@ =~= seq![output]);
            assert(op.scalars@ =~= seq![Scalar::Count(channels), Scalar::Count(seq_len)]);
            reveal_with_fuel(gather, 4);
            reveal_with_fuel(store, 2);
            assert(gather(self.values(), op.reads@) =~= seq![self.values()[input as int], self.values()[mean as int], self.values()[stddev as int]]);
        }
        self.run(op);
    }

    /// Mean and deviation of every channel.
    pub fn channel_stats(&mut self, input: usize, mean: usize, stddev: usize, channels: u32, seq_len: u32)
        requires
            old(self).wf(),
            input < old(self).values().len(),
            channels * seq_len <= old(self).sizes()[input as int],
            mean < old(self).values().len(),
            channels <= old(self).sizes()[mean as int],
            stddev < old(self).values().len(),
            channels <= old(self).sizes()[stddev as int],
            mean != stddev,
        ensures
            final(self).wf(),
            final(self).sizes() == old(self).sizes(),
            final(self).values() == old(self).values().update(
                mean as int,
                crate::device::value::channel_stats_mean(old(self).values()[input as int], channels, seq_len),
            ).update(
                stddev as int,
                crate::device::value::channel_stats_stddev(old(self).values()[input as int], channels, seq_len),
            ),
    {
        let op = Op {
            kernel: Kernel::ChannelStats,
            reads: vec![input],
            writes: vec![mean, stddev],
            scalars: vec![Scalar::Count(channels), Scalar::Count(seq_len)],
        };
        proof {
            assert(op.reads@ =~= seq![input]);
            assert(op.writes@ =~= seq![mean, stddev]);
            assert(op.scalars@ =~= seq![Scalar::Count(channels), Scalar::Count(seq_len)]);
            reveal_with_fuel(gather, 2);
            reveal_with_fuel(store, 3);
            assert(gather(self.values(), op.reads@) =~= seq![self.values()[input as int]]);
        }
        self.run(op);
    }

    /// Mean and deviation of every channel under weights over time.
    pub fn weighted_channel_stats(&mut self, input: usize, weights: usize, mean: usize, stddev: usize, channels: u32, seq_len: u32)
        requires
            old(self).wf(),
            input < old(self).values().len(),
            channels * seq_len <= old(self).sizes()[input as int],
            weights < old(self).values().len(),
            channels * seq_len <= old(self).sizes()[weights as int],
            mean < old(self).values().len(),
            channels <= old(self).sizes()[mean as int],
            stddev < old(self).values().len(),
            channels <= old(self).sizes()[stddev as int],
            mean != stddev,
        ensures
            final(self).wf(),
            final(self).sizes() == old(self).sizes(),
            final(self).values() == old(self).values().update(
                mean as int,
                crate::device::value::weighted_channel_stats_mean(old(self).values()[input as int], old(self).values()[weights as int], channels, seq_len),
            ).update(
                stddev as int,
                crate::device::value::weighted_channel_stats_stddev(old(self).values()[input as int], old(self).values()[weights as int], channels, seq_len),
            ),
    {
        let op = Op {
            kernel: Kernel::WeightedChannelStats,
            reads: vec![input, weights],
            writes: vec![mean, stddev],
            scalars: vec![Scalar::Count(channels), Scalar::Count(seq_len)],
        };
        proof {
            assert(op.reads@ =~= seq![input, weights]);
            assert(op.writes@ =~= seq![mean, stddev]);
            assert(op.scalars@ =~= seq![Scalar::Count(channels), Scalar::Count(seq_len)]);
            reveal_with_fuel(gather, 3);
            reveal_with_fuel(store, 3);
            assert(gather(self.values(), op.reads@) =~= seq![self.values()[input as int], self.values()[weights as int]]);
        }
        self.run(op);
    }

    /// Softmax over time, channel by channel, in place.
    pub fn softmax_channels(&mut self, values: usize, channels: u32, seq_len: u32)
        requires
            old(self).wf(),
            values < old(self).values().len(),
            channels * seq_len <= old(self).sizes()[values as int],
        ensures
            final(self).wf(),
            final(self).sizes() == old(self).sizes(),
            final(self).values() == old(self).values().update(
                values as int,
                crate::device::value::softmax_channels(old(self).values()[values as int], channels, seq_len),
            ),
    {
        let op = Op {
            kernel: Kernel::SoftmaxChannels,
            reads: vec![values],
            writes: vec![values],
            scalars: vec![Scalar::Count(channels), Scalar::Count(seq_len)],
        };
        proof {
            assert(op.reads@ =~= seq![values]);
            assert(op.writes@ =~= seq![values]);
            assert(op.scalars@ =~= seq![Scalar::Count(channels), Scalar::Count(seq_len)]);
            reveal_with_fuel(gather, 2);
            reveal_with_fuel(store, 2);
            assert(gather(self.values(), op.reads@) =~= seq![self.values()[values as int]]);
        }
        self.run(op);
    }

    /// Copies `n` elements from element `offset` of the source.
    pub fn copy_from(&mut self, src: usize, dst: usize, n: usize, offset: usize)
        requires
            old(self).wf(),
            src < old(self).values().len(),
            offset + n <= old(self).sizes()[src as int],
            dst < old(self).values().len(),
            n <= old(self).sizes()[dst as int],
        ensures
            final(self).wf(),
            final(self).sizes() == old(self).sizes(),
            final(self).values() == old(self).values().update(
                dst as int,
                crate::device::value::copy_from(old(self).values()[src as int], n, offset),
            ),
    {
        let op = Op {
            kernel: Kernel::CopyFrom,
            reads: vec![src],
            writes: vec![dst],
            scalars: vec![Scalar::Size(n), Scalar::Size(offset)],
        };
        proof {
            assert(op.reads@ =~= seq![src]);
            assert(op.writes@ =~= seq![dst]);
            assert(op.scalars@ =~= seq![Scalar::Size(n), Scalar::Size(offset)]);
            reveal_with_fuel(gather, 2);
            reveal_with_fuel(store, 2);
            assert(gather(self.values(), op.reads@) =~= seq![self.values()[src as int]]);
        }
        self.run(op);
    }

    /// Row-wise RMS normalisation from f32 to bf16.
    pub fn rms_norm_f32in_bf16(&mut self, x: usize, weight: usize, out: usize, n_rows: u32, dim: u32, eps: Scalar)
        requires
            old(self).wf(),
            x < old(self).values().len(),
            n_rows * dim <= old(self).sizes()[x as int],
            weight < old(self).values().len(),
            dim <= old(self).sizes()[weight as int],
            out < old(self).values().len(),
            n_rows * dim <= old(self).sizes()[out as int],
        ensures
            final(self).wf(),
            final(self).sizes() == old(self).sizes(),
            final(self).values() == old(self).values().update(
                out as int,
                crate::device::value::rms_norm_f32in_bf16(old(self).values()[x as int], old(self).values()[weight as int], n_rows, dim, eps),
            ),
    {
        let op = Op {
            kernel: Kernel::RmsNormF32inBf16,
            reads: vec![x, weight],
            writes: vec![out],
            scalars: vec![Scalar::Count(n_rows), Scalar::Count(dim), eps],
        };
        proof {
            assert(op.reads@ =~= seq![x, weight]);
            assert(op.writes@ =~= seq![out]);
            assert(op.scalars@ =~= seq![Scalar::Count(n_rows), Scalar::Count(dim), eps]);
            reveal_with_fuel(gather, 3);
            reveal_with_fuel(store, 2);
            assert(gather(self.values(), op.reads@) =~= seq![self.values()[x as int], self.values()[weight as int]]);
        }
        self.run(op);
    }

    /// `out[m, n] = a[m, k] * b[n, k]` transposed, in bf16.
    pub fn matmul_bf16(&mut self, a: usize, b: usize, out: usize, m: u32, n: u32, k: u32)
        requires
            old(self).wf(),
            a < old(self).values().len(),
            m * k <= old(self).sizes()[a as int],
            b < old(self).values().len(),
            n * k <= old(self).sizes()[b as int],
            out < old(self).values().len(),
            m * n <= old(self).sizes()[out as int],
        ensures
            final(self).wf(),
            final(self).sizes() == old(self).sizes(),
            final(self).values() == old(self).values().update(
                out as int,
                crate::device::value::matmul_bf16(old(self).values()[a as int], old(self).values()[b as int], m, n, k),
            ),
    {
        let op = Op {
            kernel: Kernel::MatmulBf16,
            reads: vec![a, b],
            writes: vec![out],
            scalars: vec![Scalar::Count(m), Scalar::Count(n), Scalar::Count(k)],
        };
        proof {
            assert(op.reads@ =~= seq![a, b]);
            assert(op.writes@ =~= seq![out]);
            assert(op.scalars@ =~= seq![Scalar::Count(m), Scalar::Count(n), Scalar::Count(k)]);
            reveal_with_fuel(gather, 3);
            reveal_with_fuel(store, 2);
            assert(gather(self.values(), op.reads@) =~= seq![self.values()[a as int], self.values()[b as int]]);
        }
        self.run(op);
    }

    /// `out = weight * x` for one row of `k` bf16 values.
    pub fn gemv_bf16(&mut self, x: usize, weight: usize, out: usize, n: u32, k: u32)
        requires
            old(self).wf(),
            x < old(self).values().len(),
            k <= old(self).sizes()[x as int],
            weight < old(self).values().len(),
            n * k <= old(self).sizes()[weight as int],
            out < old(self).values().len(),
            n <= old(self).sizes()[out as int],
        ensures
            final(self).wf(),
            final(self).sizes() == old(self).sizes(),
            final(self).values() == old(self).values().update(
                out as int,
                crate::device::value::gemv_bf16(old(self).values()[x as int], old(self).values()[weight as int], n, k),
            ),
    {
        let op = Op {
            kernel: Kernel::GemvBf16,
            reads: vec![x, weight],
            writes: vec![out],
            scalars: vec![Scalar::Count(n), Scalar::Count(k)],
        };
        proof {
            assert(op.reads@ =~= seq![x, weight]);
            assert(op.writes@ =~= seq![out]);
            assert(op.scalars@ =~= seq![Scalar::Count(n), Scalar::Count(k)]);
            reveal_with_fuel(gather, 3);
            reveal_with_fuel(store, 2);
            assert(gather(self.values(), op.reads@) =~= seq![self.values()[x as int], self.values()[weight as int]]);
        }
        self.run(op);
    }

    /// Two matrix-vector products over one bf16 input row.
    pub fn gemv_dual_bf16(&mut self, x: usize, weight_a: usize, weight_b: usize, out_a: usize, out_b: usize, n: u32, k: u32)
        requires
            old(self).wf(),
            x < old(self).values().len(),
            k <= old(self).sizes()[x as int],
            weight_a < old(self).values().len(),
            n * k <= old(self).sizes()[weight_a as int],
            weight_b < old(self).values().len(),
            n * k <= old(self).sizes()[weight_b as int],
            out_a < old(self).values().len(),
            n <= old(self).sizes()[out_a as int],
            out_b < old(self).values().len(),
            n <= old(self).sizes()[out_b as int],
            out_a != out_b,
        ensures
            final(self).wf(),
            final(self).sizes() == old(self).sizes(),
            final(self).values() == old(self).values().update(
                out_a as int,
                crate::device::value::gemv_dual_bf16_out_a(old(self).values()[x as int], old(self).values()[weight_a as int], old(self).values()[weight_b as int], n, k),
            ).update(
                out_b as int,
                crate::device::value::gemv_dual_bf16_out_b(old(self).values()[x as int], old(self).values()[weight_a as int], old(self).values()[weight_b as int], n, k),
            ),
    {
        let op = Op {
            kernel: Kernel::GemvDualBf16,
            reads: vec![x, weight_a, weight_b],
            writes: vec![out_a, out_b],
            scalars: vec![Scalar::Count(n), Scalar::Count(k)],
        };
        proof {
            assert(op.reads@ =~= seq![x, weight_a, weight_b]);
            assert(op.writes@ =~= seq![out_a, out_b]);
            assert(op.scalars@ =~= seq![Scalar::Count(n), Scalar::Count(k)]);
            reveal_with_fuel(gather, 4);
            reveal_with_fuel(store, 3);
            assert(gather(self.values(), op.reads@) =~= seq![self.values()[x as int], self.values()[weight_a as int], self.values()[weight_b as int]]);
        }
        self.run(op);
    }

    /// `hidden += delta` over `n` bf16 values.
    pub fn add_inplace_f32_bf16(&mut self, hidden: usize, delta: usize, n: u32)
        requires
            old(self).wf(),
            hidden < old(self).values().len(),
            n <= old(self).sizes()[hidden as int],
            delta < old(self).values().len(),
            n <= old(self).sizes()[delta as int],
        ensures
            final(self).wf(),
            final(self).sizes() == old(self).sizes(),
            final(self).values() == old(self).values().update(
                hidden as int,
                crate::device::value::add_inplace_f32_bf16(old(self).values()[hidden as int], old(self).values()[delta as int], n),
            ),
    {
        let op = Op {
            kernel: Kernel::AddInplaceF32Bf16,
            reads: vec![hidden, delta],
            writes: vec![hidden],
            scalars: vec![Scalar::Count(n)],
        };
        proof {
            assert(op.reads@ =~= seq![hidden, delta]);
            assert(op.writes@ =~= seq![hidden]);
            assert(op.scalars@ =~= seq![Scalar::Count(n)]);
            reveal_with_fuel(gather, 3);
            reveal_with_fuel(store, 2);
            assert(gather(self.values(), op.reads@) =~= seq![self.values()[hidden as int], self.values()[delta as int]]);
        }
        self.run(op);
    }

    /// `out = silu(gate) * up` over `n` bf16 values.
    pub fn silu_bf16(&mut self, gate: usize, up: usize, out: usize, n: u32)
        requires
            old(self).wf(),
            gate < old(self).values().len(),
            n <= old(self).sizes()[gate as int],
            up < old(self).values().len(),
            n <= old(self).sizes()[up as int],
            out < old(self).values().len(),
            n <= old(self).sizes()[out as int],
        ensures
            final(self).wf(),
            final(self).sizes() == old(self).sizes(),
            final(self).values() == old(self).values().update(
                out as int,
                crate::device::value::silu_bf16(old(self).values()[gate as int], old(self).values()[up as int], n),
            ),
    {
        let op = Op {
            kernel: Kernel::SiluBf16,
            reads: vec![gate, up],
            writes: vec![out],
            scalars: vec![Scalar::Count(n)],
        };
        proof {
            assert(op.reads@ =~= seq![gate, up]);
            assert(op.writes@ =~= seq![out]);
            assert(op.scalars@ =~= seq![Scalar::Count(n)]);
            reveal_with_fuel(gather, 3);
            reveal_with_fuel(store, 2);
            assert(gather(self.values(), op.reads@) =~= seq![self.values()[gate as int], self.values()[up as int]]);
        }
        self.run(op);
    }

    /// `out = silu(x)` over `n` bf16 values.
    pub fn silu_act_bf16(&mut self, x: usize, out: usize, n: u32)
        requires
            old(self).wf(),
            x < old(self).values().len(),
            n <= old(self).sizes()[x as int],
            out < old(self).values().len(),
            n <= old(self).sizes()[out as int],
        ensures
            final(self).wf(),
            final(self).sizes() == old(self).sizes(),
            final(self).values() == old(self).values().update(
                out as int,
                crate::device::value::silu_act_bf16(old(self).values()[x as int], n),
            ),
    {
        let op = Op {
            kernel: Kernel::SiluActBf16,
            reads: vec![x],
            writes: vec![out],
            scalars: vec![Scalar::Count(n)],
        };
        proof {
            assert(op.reads@ =~= seq![x]);
            assert(op.writes@ =~= seq![out]);
            assert(op.scalars@ =~= seq![Scalar::Count(n)]);
            reveal_with_fuel(gather, 2);
            reveal_with_fuel(store, 2);
            assert(gather(self.values(), op.reads@) =~= seq![self.values()[x as int]]);
        }
        self.run(op);
    }

    /// Copies the bf16 rows of `table` that `ids` names.
    pub fn gather_rows_bf16(&mut self, table: usize, ids: usize, out: usize, n_rows: u32, dim: u32)
        requires
            old(self).wf(),
            table < old(self).values().len(),
            0 <= old(self).sizes()[table as int],
            ids < old(self).values().len(),
            n_rows <= old(self).sizes()[ids as int],
            out < old(self).values().len(),
            n_rows * dim <= old(self).sizes()[out as int],
        ensures
            final(self).wf(),
            final(self).sizes() == old(self).sizes(),
            final(self).values() == old(self).values().update(
                out as int,
                crate::device::value::gather_rows_bf16(old(self).values()[table as int], old(self).values()[ids as int], n_rows, dim),
            ),
    {
        let op = Op {
            kernel: Kernel::GatherRowsBf16,
            reads: vec![table, ids],
            writes: vec![out],
            scalars: vec![Scalar::Count(n_rows), Scalar::Count(dim)],
        };
        proof {
            assert(op.reads@ =~= seq![table, ids]);
            assert(op.writes@ =~= seq![out]);
            assert(op.scalars@ =~= seq![Scalar::Count(n_rows), Scalar::Count(dim)]);
            reveal_with_fuel(gather, 3);
            reveal_with_fuel(store, 2);
            assert(gather(self.values(), op.reads@) =~= seq![self.values()[table as int], self.values()[ids as int]]);
        }
        self.run(op);
    }

    /// Adds a bias row to every bf16 row.
    pub fn add_bias_bf16_inplace(&mut self, x: usize, bias: usize, n_rows: u32, dim: u32)
        requires
            old(self).wf(),
            x < old(self).values().len(),
            n_rows * dim <= old(self).sizes()[x as int],
            bias < old(self).values().len(),
            dim <= old(self).sizes()[bias as int],
        ensures
            final(self).wf(),
            final(self).sizes() == old(self).sizes(),
            final(self).values() == old(self).values().update(
                x as int,
                crate::device::value::add_bias_bf16_inplace(old(self).values()[x as int], old(self).values()[bias as int], n_rows, dim),
            ),
    {
        let op = Op {
            kernel: Kernel::AddBiasBf16Inplace,
            reads: vec![x, bias],
            writes: vec![x],
            scalars: vec![Scalar::Count(n_rows), Scalar::Count(dim)],
        };
        proof {
            assert(op.reads@ =~= seq![x, bias]);
            assert(op.writes@ =~= seq![x]);
            assert(op.scalars@ =~= seq![Scalar::Count(n_rows), Scalar::Count(dim)]);
            reveal_with_fuel(gather, 3);
            reveal_with_fuel(store, 2);
            assert(gather(self.values(), op.reads@) =~= seq![self.values()[x as int], self.values()[bias as int]]);
        }
        self.run(op);
    }

    /// Converts `n` values from bf16 to f16.
    pub fn copy_bf16_to_f16(&mut self, src: usize, dst: usize, n: u32)
        requires
            old(self).wf(),
            src < old(self).values().len(),
            n <= old(self).sizes()[src as int],
            dst < old(self).values().len(),
            n <= old(self).sizes()[dst as int],
        ensures
            final(self).wf(),
            final(self).sizes() == old(self).sizes(),
            final(self).values() == old(self).values().update(
                dst as int,
                crate::device::value::copy_bf16_to_f16(old(self).values()[src as int], n),
            ),
    {
        let op = Op {
            kernel: Kernel::CopyBf16ToF16,
            reads: vec![src],
            writes: vec![dst],
            scalars: vec![Scalar::Count(n)],
        };
        proof {
            assert(op.reads@ =~= seq![src]);
            assert(op.writes@ =~= seq![dst]);
            assert(op.scalars@ =~= seq![Scalar::Count(n)]);
            reveal_with_fuel(gather, 2);
            reveal_with_fuel(store, 2);
            assert(gather(self.values(), op.reads@) =~= seq![self.values()[src as int]]);
        }
        self.run(op);
    }

    /// Converts `n` values from f16 to bf16.
    pub fn copy_f16_to_bf16(&mut self, src: usize, dst: usize, n: u32)
        requires
            old(self).wf(),
            src < old(self).values().len(),
            n <= old(self).sizes()[src as int],
            dst < old(self).values().len(),
            n <= old(self).sizes()[dst as int],
        ensures
            final(self).wf(),
            final(self).sizes() == old(self).sizes(),
            final(self).values() == old(self).values().update(
                dst as int,
                crate::device::value::copy_f16_to_bf16(old(self).values()[src as int], n),
            ),
    {
        let op = Op {
            kernel: Kernel::CopyF16ToBf16,
            reads: vec![src],
            writes: vec![dst],
            scalars: vec![Scalar::Count(n)],
        };
        proof {
            assert(op.reads@ =~= seq![src]);
            assert(op.writes@ =~= seq![dst]);
            assert(op.scalars@ =~= seq![Scalar::Count(n)]);
            reveal_with_fuel(gather, 2);
            reveal_with_fuel(store, 2);
            assert(gather(self.values(), op.reads@) =~= seq![self.values()[src as int]]);
        }
        self.run(op);
    }

    /// Widens `n` bf16 values.
    pub fn copy_bf16_to_f32(&mut self, src: usize, dst: usize, n: u32)
        requires
            old(self).wf(),
            src < old(self).values().len(),
            n <= old(self).sizes()[src as int],
            dst < old(self).values().len(),
            n <= old(self).sizes()[dst as int],
        ensures
            final(self).wf(),
            final(self).sizes() == old(self).sizes(),
            final(self).values() == old(self).values().update(
                dst as int,
                crate::device::value::copy_bf16_to_f32(old(self).values()[src as int], n),
            ),
    {
        let op = Op {
            kernel: Kernel::CopyBf16ToF32,
            reads: vec![src],
            writes: vec![dst],
            scalars: vec![Scalar::Count(n)],
        };
        proof {
            assert(op.reads@ =~= seq![src]);
            assert(op.writes@ =~= seq![dst]);
            assert(op.scalars@ =~= seq![Scalar::Count(n)]);
            reveal_with_fuel(gather, 2);
            reveal_with_fuel(store, 2);
            assert(gather(self.values(), op.reads@) =~= seq![self.values()[src as int]]);
        }
        self.run(op);
    }

    /// NeoX rotary embedding in place with a factor per frequency.
    pub fn rope_neox_freqs(&mut self, x: usize, freq_factors: usize, seq_len: u32, n_heads: u32, head_dim: u32, pos: u32, theta_base: Scalar)
        requires
            old(self).wf(),
            x < old(self).values().len(),
            seq_len * n_heads * head_dim <= old(self).sizes()[x as int],
            freq_factors < old(self).values().len(),
            head_dim / 2 <= old(self).sizes()[freq_factors as int],
        ensures
            final(self).wf(),
            final(self).sizes() == old(self).sizes(),
            final(self).values() == old(self).values().update(
                x as int,
                crate::device::value::rope_neox_freqs(old(self).values()[x as int], old(self).values()[freq_factors as int], seq_len, n_heads, head_dim, pos, theta_base),
            ),
    {
        let op = Op {
            kernel: Kernel::RopeNeoxFreqs,
            reads: vec![x, freq_factors],
            writes: vec![x],
            scalars: vec![Scalar::Count(seq_len), Scalar::Count(n_heads), Scalar::Count(head_dim), Scalar::Count(pos), theta_base],
        };
        proof {
            assert(op.reads@ =~= seq![x, freq_factors]);
            assert(op.writes@ =~= seq![x]);
            assert(op.scalars@ =~= seq![Scalar::Count(seq_len), Scalar::Count(n_heads), Scalar::Count(head_dim), Scalar::Count(pos), theta_base]);
            reveal_with_fuel(gather, 3);
            reveal_with_fuel(store, 2);
            assert(gather(self.values(), op.reads@) =~= seq![self.values()[x as int], self.values()[freq_factors as int]]);
        }
        self.run(op);
    }

    /// Full attention with an explicit scale and soft cap.
    pub fn mha_naive_full(&mut self, q: usize, k: usize, v: usize, out: usize, head_dim: u32, n_heads: u32, n_kv_heads: u32, seq_len: u32, kv_len: u32, scale: Scalar, softcap: Scalar)
        requires
            old(self).wf(),
            q < old(self).values().len(),
            seq_len * n_heads * head_dim <= old(self).sizes()[q as int],
            k < old(self).values().len(),
            kv_len * n_kv_heads * head_dim <= old(self).sizes()[k as int],
            v < old(self).values().len(),
            kv_len * n_kv_heads * head_dim <= old(self).sizes()[v as int],
            out < old(self).values().len(),
            seq_len * n_heads * head_dim <= old(self).sizes()[out as int],
        ensures
            final(self).wf(),
            final(self).sizes() == old(self).sizes(),
            final(self).values() == old(self).values().update(
                out as int,
                crate::device::value::mha_naive_full(old(self).values()[q as int], old(self).values()[k as int], old(self).values()[v as int], head_dim, n_heads, n_kv_heads, seq_len, kv_len, scale, softcap),
            ),
    {
        let op = Op {
            kernel: Kernel::MhaNaiveFull,
            reads: vec![q, k, v],
            writes: vec![out],
            scalars: vec![Scalar::Count(head_dim), Scalar::Count(n_heads), Scalar::Count(n_kv_heads), Scalar::Count(seq_len), Scalar::Count(kv_len), scale, softcap],
        };
        proof {
            assert(op.reads@ =~= seq![q, k, v]);
            assert(op.writes@ =~= seq![out]);
            assert(op.scalars@ =~= seq![Scalar::Count(head_dim), Scalar::Count(n_heads), Scalar::Count(n_kv_heads), Scalar::Count(seq_len), Scalar::Count(kv_len), scale, softcap]);
            reveal_with_fuel(gather, 4);
            reveal_with_fuel(store, 2);
            assert(gather(self.values(), op.reads@) =~= seq![self.values()[q as int], self.values()[k as int], self.values()[v as int]]);
        }
        self.run(op);
    }

    /// Full attention with relative positions.
    pub fn mha_relative_full(&mut self, q: usize, k: usize, v: usize, pos: usize, bias_u: usize, bias_v: usize, out: usize, head_dim: u32, n_heads: u32, seq_len: u32)
        requires
            old(self).wf(),
            q < old(self).values().len(),
            seq_len * n_heads * head_dim <= old(self).sizes()[q as int],
            k < old(self).values().len(),
            seq_len * n_heads * head_dim <= old(self).sizes()[k as int],
            v < old(self).values().len(),
            seq_len * n_heads * head_dim <= old(self).sizes()[v as int],
            pos < old(self).values().len(),
            (2 * seq_len - 1) * n_heads * head_dim <= old(self).sizes()[pos as int],
            bias_u < old(self).values().len(),
            n_heads * head_dim <= old(self).sizes()[bias_u as int],
            bias_v < old(self).values().len(),
            n_heads * head_dim <= old(self).sizes()[bias_v as int],
            out < old(self).values().len(),
            seq_len * n_heads * head_dim <= old(self).sizes()[out as int],
        ensures
            final(self).wf(),
            final(self).sizes() == old(self).sizes(),
            final(self).values() == old(self).values().update(
                out as int,
                crate::device::value::mha_relative_full(old(self).values()[q as int], old(self).values()[k as int], old(self).values()[v as int], old(self).values()[pos as int], old(self).values()[bias_u as int], old(self).values()[bias_v as int], head_dim, n_heads, seq_len),
            ),
    {
        let op = Op {
            kernel: Kernel::MhaRelativeFull,
            reads: vec![q, k, v, pos, bias_u, bias_v],
            writes: vec![out],
            scalars: vec![Scalar::Count(head_dim), Scalar::Count(n_heads), Scalar::Count(seq_len)],
        };
        proof {
            assert(op.reads@ =~= seq![q, k, v, pos, bias_u, bias_v]);
            assert(op.writes@ =~= seq![out]);
            assert(op.scalars@ =~= seq![Scalar::Count(head_dim), Scalar::Count(n_heads), Scalar::Count(seq_len)]);
            reveal_with_fuel(gather, 7);
            reveal_with_fuel(store, 2);
            assert(gather(self.values(), op.reads@) =~= seq![self.values()[q as int], self.values()[k as int], self.values()[v as int], self.values()[pos as int], self.values()[bias_u as int], self.values()[bias_v as int]]);
        }
        self.run(op);
    }

    /// Convolution over channel-first data padded on the left.
    pub fn conv1d_padded_f16(&mut self, x: usize, weight: usize, bias: usize, out: usize, in_channels: u32, out_channels: u32, seq_len: u32, kernel_size: u32, left_padding: u32)
        requires
            old(self).wf(),
            x < old(self).values().len(),
            in_channels * seq_len <= old(self).sizes()[x as int],
            weight < old(self).values().len(),
            out_channels * in_channels * kernel_size <= old(self).sizes()[weight as int],
            bias < old(self).values().len(),
            out_channels <= old(self).sizes()[bias as int],
            out < old(self).values().len(),
            out_channels * seq_len <= old(self).sizes()[out as int],
        ensures
            final(self).wf(),
            final(self).sizes() == old(self).sizes(),
            final(self).values() == old(self).values().update(
                out as int,
                crate::device::value::conv1d_padded_f16(old(self).values()[x as int], old(self).values()[weight as int], old(self).values()[bias as int], in_channels, out_channels, seq_len, kernel_size, left_padding),
            ),
    {
        let op = Op {
            kernel: Kernel::Conv1dPaddedF16,
            reads: vec![x, weight, bias],
            writes: vec![out],
            scalars: vec![Scalar::Count(in_channels), Scalar::Count(out_channels), Scalar::Count(seq_len), Scalar::Count(kernel_size), Scalar::Count(left_padding)],
        };
        proof {
            assert(op.reads@ =~= seq![x, weight, bias]);
            assert(op.writes@ =~= seq![out]);
            assert(op.scalars@ =~= seq![Scalar::Count(in_channels), Scalar::Count(out_channels), Scalar::Count(seq_len), Scalar::Count(kernel_size), Scalar::Count(left_padding)]);
            reveal_with_fuel(gather, 4);
            reveal_with_fuel(store, 2);
            assert(gather(self.values(), op.reads@) =~= seq![self.values()[x as int], self.values()[weight as int], self.values()[bias as int]]);
        }
        self.run(op);
    }

    /// Leaky ReLU over `n` values.
    pub fn leaky_relu_f16(&mut self, x: usize, out: usize, n: u32, slope: Scalar)
        requires
            old(self).wf(),
            x < old(self).values().len(),
            n <= old(self).sizes()[x as int],
            out < old(self).values().len(),
            n <= old(self).sizes()[out as int],
        ensures
            final(self).wf(),
            final(self).sizes() == old(self).sizes(),
            final(self).values() == old(self).values().update(
                out as int,
                crate::device::value::leaky_relu_f16(old(self).values()[x as int], n, slope),
            ),
    {
        let op = Op {
            kernel: Kernel::LeakyReluF16,
            reads: vec![x],
            writes: vec![out],
            scalars: vec![Scalar::Count(n), slope],
        };
        proof {
            assert(op.reads@ =~= seq![x]);
            assert(op.writes@ =~= seq![out]);
            assert(op.scalars@ =~= seq![Scalar::Count(n), slope]);
            reveal_with_fuel(gather, 2);
            reveal_with_fuel(store, 2);
            assert(gather(self.values(), op.reads@) =~= seq![self.values()[x as int]]);
        }
        self.run(op);
    }

    /// Repeats every frame of channel-first data.
    pub fn repeat_interleave_f16(&mut self, x: usize, out: usize, channels: u32, frames: u32, repeats: u32)
        requires
            old(self).wf(),
            x < old(self).values().len(),
            channels * frames <= old(self).sizes()[x as int],
            out < old(self).values().len(),
            channels * frames * repeats <= old(self).sizes()[out as int],
        ensures
            final(self).wf(),
            final(self).sizes() == old(self).sizes(),
            final(self).values() == old(self).values().update(
                out as int,
                crate::device::value::repeat_interleave_f16(old(self).values()[x as int], channels, frames, repeats),
            ),
    {
        let op = Op {
            kernel: Kernel::RepeatInterleaveF16,
            reads: vec![x],
            writes: vec![out],
            scalars: vec![Scalar::Count(channels), Scalar::Count(frames), Scalar::Count(repeats)],
        };
        proof {
            assert(op.reads@ =~= seq![x]);
            assert(op.writes@ =~= seq![out]);
            assert(op.scalars@ =~= seq![Scalar::Count(channels), Scalar::Count(frames), Scalar::Count(repeats)]);
            reveal_with_fuel(gather, 2);
            reveal_with_fuel(store, 2);
            assert(gather(self.values(), op.reads@) =~= seq![self.values()[x as int]]);
        }
        self.run(op);
    }

    /// `out = x * scale` over `n` values.
    pub fn scale_f16(&mut self, x: usize, out: usize, n: u32, scale: Scalar)
        requires
            old(self).wf(),
            x < old(self).values().len(),
            n <= old(self).sizes()[x as int],
            out < old(self).values().len(),
            n <= old(self).sizes()[out as int],
        ensures
            final(self).wf(),
            final(self).sizes() == old(self).sizes(),
            final(self).values() == old(self).values().update(
                out as int,
                crate::device::value::scale_f16(old(self).values()[x as int], n, scale),
            ),
    {
        let op = Op {
            kernel: Kernel::ScaleF16,
            reads: vec![x],
            writes: vec![out],
            scalars: vec![Scalar::Count(n), scale],
        };
        proof {
            assert(op.reads@ =~= seq![x]);
            assert(op.writes@ =~= seq![out]);
            assert(op.scalars@ =~= seq![Scalar::Count(n), scale]);
            reveal_with_fuel(gather, 2);
            reveal_with_fuel(store, 2);
            assert(gather(self.values(), op.reads@) =~= seq![self.values()[x as int]]);
        }
        self.run(op);
    }

    /// Gathers the receptive field of every output of a convolution.
    pub fn unfold_conv1d_f16(&mut self, input: usize, output: usize, channels: u32, input_len: u32, output_len: u32, kernel_size: u32, stride: u32, padding: u32, dilation: u32)
        requires
            old(self).wf(),
            input < old(self).values().len(),
            channels * input_len <= old(self).sizes()[input as int],
            output < old(self).values().len(),
            output_len * (channels * kernel_size) <= old(self).sizes()[output as int],
        ensures
            final(self).wf(),
            final(self).sizes() == old(self).sizes(),
            final(self).values() == old(self).values().update(
                output as int,
                crate::device::value::unfold_conv1d_f16(old(self).values()[input as int], channels, input_len, output_len, kernel_size, stride, padding, dilation),
            ),
    {
        let op = Op {
            kernel: Kernel::UnfoldConv1dF16,
            reads: vec![input],
            writes: vec![output],
            scalars: vec![Scalar::Count(channels), Scalar::Count(input_len), Scalar::Count(output_len), Scalar::Count(kernel_size), Scalar::Count(stride), Scalar::Count(padding), Scalar::Count(dilation)],
        };
        proof {
            assert(op.reads@ =~= seq![input]);
            assert(op.writes@ =~= seq![output]);
            assert(op.scalars@ =~= seq![Scalar::Count(channels), Scalar::Count(input_len), Scalar::Count(output_len), Scalar::Count(kernel_size), Scalar::Count(stride), Scalar::Count(padding), Scalar::Count(dilation)]);
            reveal_with_fuel(gather, 2);
            reveal_with_fuel(store, 2);
            assert(gather(self.values(), op.reads@) =~= seq![self.values()[input as int]]);
        }
        self.run(op);
    }

    /// Transposed convolution over channel-first data.
    pub fn conv_transpose1d_general_f16(&mut self, x: usize, weight: usize, bias: usize, out: usize, in_channels: u32, out_channels: u32, input_len: u32, output_len: u32, kernel_size: u32, stride: u32, padding: u32)
        requires
            old(self).wf(),
            x < old(self).values().len(),
            in_channels * input_len <= old(self).sizes()[x as int],
            weight < old(self).values().len(),
            in_channels * out_channels * kernel_size <= old(self).sizes()[weight as int],
            bias < old(self).values().len(),
            out_channels <= old(self).sizes()[bias as int],
            out < old(self).values().len(),
            out_channels * output_len <= old(self).sizes()[out as int],
        ensures
            final(self).wf(),
            final(self).sizes() == old(self).sizes(),
            final(self).values() == old(self).values().update(
                out as int,
                crate::device::value::conv_transpose1d_general_f16(old(self).values()[x as int], old(self).values()[weight as int], old(self).values()[bias as int], in_channels, out_channels, input_len, output_len, kernel_size, stride, padding),
            ),
    {
        let op = Op {
            kernel: Kernel::ConvTranspose1dGeneralF16,
            reads: vec![x, weight, bias],
            writes: vec![out],
            scalars: vec![Scalar::Count(in_channels), Scalar::Count(out_channels), Scalar::Count(input_len), Scalar::Count(output_len), Scalar::Count(kernel_size), Scalar::Count(stride), Scalar::Count(padding)],
        };
        proof {
            assert(op.reads@ =~= seq![x, weight, bias]);
            assert(op.writes@ =~= seq![out]);
            assert(op.scalars@ =~= seq![Scalar::Count(in_channels), Scalar::Count(out_channels), Scalar::Count(input_len), Scalar::Count(output_len), Scalar::Count(kernel_size), Scalar::Count(stride), Scalar::Count(padding)]);
            reveal_with_fuel(gather, 4);
            reveal_with_fuel(store, 2);
            assert(gather(self.values(), op.reads@) =~= seq![self.values()[x as int], self.values()[weight as int], self.values()[bias as int]]);
        }
        self.run(op);
    }

    /// Snake activation of channel-first data.
    pub fn snake_f16(&mut self, x: usize, alpha: usize, out: usize, channels: u32, frames: u32)
        requires
            old(self).wf(),
            x < old(self).values().len(),
            channels * frames <= old(self).sizes()[x as int],
            alpha < old(self).values().len(),
            channels <= old(self).sizes()[alpha as int],
            out < old(self).values().len(),
            channels * frames <= old(self).sizes()[out as int],
        ensures
            final(self).wf(),
            final(self).sizes() == old(self).sizes(),
            final(self).values() == old(self).values().update(
                out as int,
                crate::device::value::snake_f16(old(self).values()[x as int], old(self).values()[alpha as int], channels, frames),
            ),
    {
        let op = Op {
            kernel: Kernel::SnakeF16,
            reads: vec![x, alpha],
            writes: vec![out],
            scalars: vec![Scalar::Count(channels), Scalar::Count(frames)],
        };
        proof {
            assert(op.reads@ =~= seq![x, alpha]);
            assert(op.writes@ =~= seq![out]);
            assert(op.scalars@ =~= seq![Scalar::Count(channels), Scalar::Count(frames)]);
            reveal_with_fuel(gather, 3);
            reveal_with_fuel(store, 2);
            assert(gather(self.values(), op.reads@) =~= seq![self.values()[x as int], self.values()[alpha as int]]);
        }
        self.run(op);
    }

    /// `out = elu(x)` over `n` values.
    pub fn elu_f16(&mut self, x: usize, out: usize, n: u32)
        requires
            old(self).wf(),
            x < old(self).values().len(),
            n <= old(self).sizes()[x as int],
            out < old(self).values().len(),
            n <= old(self).sizes()[out as int],
        ensures
            final(self).wf(),
            final(self).sizes() == old(self).sizes(),
            final(self).values() == old(self).values().update(
                out as int,
                crate::device::value::elu_f16(old(self).values()[x as int], n),
            ),
    {
        let op = Op {
            kernel: Kernel::EluF16,
            reads: vec![x],
            writes: vec![out],
            scalars: vec![Scalar::Count(n)],
        };
        proof {
            assert(op.reads@ =~= seq![x]);
            assert(op.writes@ =~= seq![out]);
            assert(op.scalars@ =~= seq![Scalar::Count(n)]);
            reveal_with_fuel(gather, 2);
            reveal_with_fuel(store, 2);
            assert(gather(self.values(), op.reads@) =~= seq![self.values()[x as int]]);
        }
        self.run(op);
    }

    /// Puts the second frame of every channel in front of the first.
    pub fn reflection_pad_left_f16(&mut self, x: usize, out: usize, channels: u32, frames: u32)
        requires
            old(self).wf(),
            x < old(self).values().len(),
            channels * frames <= old(self).sizes()[x as int],
            out < old(self).values().len(),
            channels * (frames + 1) <= old(self).sizes()[out as int],
        ensures
            final(self).wf(),
            final(self).sizes() == old(self).sizes(),
            final(self).values() == old(self).values().update(
                out as int,
                crate::device::value::reflection_pad_left_f16(old(self).values()[x as int], channels, frames),
            ),
    {
        let op = Op {
            kernel: Kernel::ReflectionPadLeftF16,
            reads: vec![x],
            writes: vec![out],
            scalars: vec![Scalar::Count(channels), Scalar::Count(frames)],
        };
        proof {
            assert(op.reads@ =~= seq![x]);
            assert(op.writes@ =~= seq![out]);
            assert(op.scalars@ =~= seq![Scalar::Count(channels), Scalar::Count(frames)]);
            reveal_with_fuel(gather, 2);
            reveal_with_fuel(store, 2);
            assert(gather(self.values(), op.reads@) =~= seq![self.values()[x as int]]);
        }
        self.run(op);
    }

    /// Divides `n` values by three, in place.
    pub fn third_f16(&mut self, x: usize, n: u32)
        requires
            old(self).wf(),
            x < old(self).values().len(),
            n <= old(self).sizes()[x as int],
        ensures
            final(self).wf(),
            final(self).sizes() == old(self).sizes(),
            final(self).values() == old(self).values().update(
                x as int,
                crate::device::value::third_f16(old(self).values()[x as int], n),
            ),
    {
        let op = Op {
            kernel: Kernel::ThirdF16,
            reads: vec![x],
            writes: vec![x],
            scalars: vec![Scalar::Count(n)],
        };
        proof {
            assert(op.reads@ =~= seq![x]);
            assert(op.writes@ =~= seq![x]);
            assert(op.scalars@ =~= seq![Scalar::Count(n)]);
            reveal_with_fuel(gather, 2);
            reveal_with_fuel(store, 2);
            assert(gather(self.values(), op.reads@) =~= seq![self.values()[x as int]]);
        }
        self.run(op);
    }

    /// One step of a long short-term memory cell, reading gate row `in_step` and writing output row `out_step`.
    pub fn lstm_cell_f16(&mut self, input_gates: usize, hidden_gates: usize, bias_ih: usize, bias_hh: usize, hidden: usize, cell: usize, output: usize, hidden_size: u32, in_step: u32, out_step: u32)
        requires
            old(self).wf(),
            input_gates < old(self).values().len(),
            (in_step + 1) * (4 * hidden_size) <= old(self).sizes()[input_gates as int],
            hidden_gates < old(self).values().len(),
            4 * hidden_size <= old(self).sizes()[hidden_gates as int],
            bias_ih < old(self).values().len(),
            4 * hidden_size <= old(self).sizes()[bias_ih as int],
            bias_hh < old(self).values().len(),
            4 * hidden_size <= old(self).sizes()[bias_hh as int],
            hidden < old(self).values().len(),
            hidden_size <= old(self).sizes()[hidden as int],
            cell < old(self).values().len(),
            hidden_size <= old(self).sizes()[cell as int],
            output < old(self).values().len(),
            (out_step + 1) * hidden_size <= old(self).sizes()[output as int],
            hidden != cell,
            hidden != output,
            cell != output,
        ensures
            final(self).wf(),
            final(self).sizes() == old(self).sizes(),
            final(self).values() == old(self).values().update(
                hidden as int,
                crate::device::value::lstm_cell_f16_hidden(old(self).values()[input_gates as int], old(self).values()[hidden_gates as int], old(self).values()[bias_ih as int], old(self).values()[bias_hh as int], old(self).values()[hidden as int], old(self).values()[cell as int], old(self).values()[output as int], hidden_size, in_step, out_step),
            ).update(
                cell as int,
                crate::device::value::lstm_cell_f16_cell(old(self).values()[input_gates as int], old(self).values()[hidden_gates as int], old(self).values()[bias_ih as int], old(self).values()[bias_hh as int], old(self).values()[hidden as int], old(self).values()[cell as int], old(self).values()[output as int], hidden_size, in_step, out_step),
            ).update(
                output as int,
                crate::device::value::lstm_cell_f16_output(old(self).values()[input_gates as int], old(self).values()[hidden_gates as int], old(self).values()[bias_ih as int], old(self).values()[bias_hh as int], old(self).values()[hidden as int], old(self).values()[cell as int], old(self).values()[output as int], hidden_size, in_step, out_step),
            ),
    {
        let op = Op {
            kernel: Kernel::LstmCellF16,
            reads: vec![input_gates, hidden_gates, bias_ih, bias_hh, hidden, cell, output],
            writes: vec![hidden, cell, output],
            scalars: vec![Scalar::Count(hidden_size), Scalar::Count(in_step), Scalar::Count(out_step)],
        };
        proof {
            assert(op.reads@ =~= seq![input_gates, hidden_gates, bias_ih, bias_hh, hidden, cell, output]);
            assert(op.writes@ =~= seq![hidden, cell, output]);
            assert(op.scalars@ =~= seq![Scalar::Count(hidden_size), Scalar::Count(in_step), Scalar::Count(out_step)]);
            reveal_with_fuel(gather, 8);
            reveal_with_fuel(store, 4);
            assert(gather(self.values(), op.reads@) =~= seq![self.values()[input_gates as int], self.values()[hidden_gates as int], self.values()[bias_ih as int], self.values()[bias_hh as int], self.values()[hidden as int], self.values()[cell as int], self.values()[output as int]]);
        }
        self.run(op);
    }

    /// Convolution over channel-first data.
    pub fn conv1d_general_f16(&mut self, x: usize, weight: usize, bias: usize, out: usize, in_channels: u32, out_channels: u32, input_len: u32, output_len: u32, kernel_size: u32, stride: u32, padding: u32, dilation: u32)
        requires
            old(self).wf(),
            x < old(self).values().len(),
            in_channels * input_len <= old(self).sizes()[x as int],
            weight < old(self).values().len(),
            out_channels * in_channels * kernel_size <= old(self).sizes()[weight as int],
            bias < old(self).values().len(),
            out_channels <= old(self).sizes()[bias as int],
            out < old(self).values().len(),
            out_channels * output_len <= old(self).sizes()[out as int],
        ensures
            final(self).wf(),
            final(self).sizes() == old(self).sizes(),
            final(self).values() == old(self).values().update(
                out as int,
                crate::device::value::conv1d_general_f16(old(self).values()[x as int], old(self).values()[weight as int], old(self).values()[bias as int], in_channels, out_channels, input_len, output_len, kernel_size, stride, padding, dilation),
            ),
    {
        let op = Op {
            kernel: Kernel::Conv1dGeneralF16,
            reads: vec![x, weight, bias],
            writes: vec![out],
            scalars: vec![Scalar::Count(in_channels), Scalar::Count(out_channels), Scalar::Count(input_len), Scalar::Count(output_len), Scalar::Count(kernel_size), Scalar::Count(stride), Scalar::Count(padding), Scalar::Count(dilation)],
        };
        proof {
            assert(op.reads@ =~= seq![x, weight, bias]);
            assert(op.writes@ =~= seq![out]);
            assert(op.scalars@ =~= seq![Scalar::Count(in_channels), Scalar::Count(out_channels), Scalar::Count(input_len), Scalar::Count(output_len), Scalar::Count(kernel_size), Scalar::Count(stride), Scalar::Count(padding), Scalar::Count(dilation)]);
            reveal_with_fuel(gather, 4);
            reveal_with_fuel(store, 2);
            assert(gather(self.values(), op.reads@) =~= seq![self.values()[x as int], self.values()[weight as int], self.values()[bias as int]]);
        }
        self.run(op);
    }

    /// Normalises every channel and applies its own scale and shift.
    pub fn instance_norm_affine_f16(&mut self, x: usize, gamma: usize, beta: usize, out: usize, channels: u32, frames: u32, eps: Scalar)
        requires
            old(self).wf(),
            x < old(self).values().len(),
            channels * frames <= old(self).sizes()[x as int],
            gamma < old(self).values().len(),
            channels <= old(self).sizes()[gamma as int],
            beta < old(self).values().len(),
            channels <= old(self).sizes()[beta as int],
            out < old(self).values().len(),
            channels * frames <= old(self).sizes()[out as int],
        ensures
            final(self).wf(),
            final(self).sizes() == old(self).sizes(),
            final(self).values() == old(self).values().update(
                out as int,
                crate::device::value::instance_norm_affine_f16(old(self).values()[x as int], old(self).values()[gamma as int], old(self).values()[beta as int], channels, frames, eps),
            ),
    {
        let op = Op {
            kernel: Kernel::InstanceNormAffineF16,
            reads: vec![x, gamma, beta],
            writes: vec![out],
            scalars: vec![Scalar::Count(channels), Scalar::Count(frames), eps],
        };
        proof {
            assert(op.reads@ =~= seq![x, gamma, beta]);
            assert(op.writes@ =~= seq![out]);
            assert(op.scalars@ =~= seq![Scalar::Count(channels), Scalar::Count(frames), eps]);
            reveal_with_fuel(gather, 4);
            reveal_with_fuel(store, 2);
            assert(gather(self.values(), op.reads@) =~= seq![self.values()[x as int], self.values()[gamma as int], self.values()[beta as int]]);
        }
        self.run(op);
    }

    /// Transposed convolution of every channel by itself.
    pub fn conv_transpose1d_depthwise_f16(&mut self, x: usize, weight: usize, bias: usize, out: usize, channels: u32, input_len: u32, output_len: u32, kernel_size: u32, stride: u32, padding: u32)
        requires
            old(self).wf(),
            x < old(self).values().len(),
            channels * input_len <= old(self).sizes()[x as int],
            weight < old(self).values().len(),
            channels * kernel_size <= old(self).sizes()[weight as int],
            bias < old(self).values().len(),
            channels <= old(self).sizes()[bias as int],
            out < old(self).values().len(),
            channels * output_len <= old(self).sizes()[out as int],
        ensures
            final(self).wf(),
            final(self).sizes() == old(self).sizes(),
            final(self).values() == old(self).values().update(
                out as int,
                crate::device::value::conv_transpose1d_depthwise_f16(old(self).values()[x as int], old(self).values()[weight as int], old(self).values()[bias as int], channels, input_len, output_len, kernel_size, stride, padding),
            ),
    {
        let op = Op {
            kernel: Kernel::ConvTranspose1dDepthwiseF16,
            reads: vec![x, weight, bias],
            writes: vec![out],
            scalars: vec![Scalar::Count(channels), Scalar::Count(input_len), Scalar::Count(output_len), Scalar::Count(kernel_size), Scalar::Count(stride), Scalar::Count(padding)],
        };
        proof {
            assert(op.reads@ =~= seq![x, weight, bias]);
            assert(op.writes@ =~= seq![out]);
            assert(op.scalars@ =~= seq![Scalar::Count(channels), Scalar::Count(input_len), Scalar::Count(output_len), Scalar::Count(kernel_size), Scalar::Count(stride), Scalar::Count(padding)]);
            reveal_with_fuel(gather, 4);
            reveal_with_fuel(store, 2);
            assert(gather(self.values(), op.reads@) =~= seq![self.values()[x as int], self.values()[weight as int], self.values()[bias as int]]);
        }
        self.run(op);
    }

    /// Gathers every frame and its neighbour at a displacement.
    pub fn unfold_adjacent_f16(&mut self, x: usize, out: usize, channels: u32, frames: u32, offset: i32)
        requires
            old(self).wf(),
            x < old(self).values().len(),
            channels * frames <= old(self).sizes()[x as int],
            out < old(self).values().len(),
            frames * (2 * channels) <= old(self).sizes()[out as int],
        ensures
            final(self).wf(),
            final(self).sizes() == old(self).sizes(),
            final(self).values() == old(self).values().update(
                out as int,
                crate::device::value::unfold_adjacent_f16(old(self).values()[x as int], channels, frames, offset),
            ),
    {
        let op = Op {
            kernel: Kernel::UnfoldAdjacentF16,
            reads: vec![x],
            writes: vec![out],
            scalars: vec![Scalar::Count(channels), Scalar::Count(frames), Scalar::Shift(offset)],
        };
        proof {
            assert(op.reads@ =~= seq![x]);
            assert(op.writes@ =~= seq![out]);
            assert(op.scalars@ =~= seq![Scalar::Count(channels), Scalar::Count(frames), Scalar::Shift(offset)]);
            reveal_with_fuel(gather, 2);
            reveal_with_fuel(store, 2);
            assert(gather(self.values(), op.reads@) =~= seq![self.values()[x as int]]);
        }
        self.run(op);
    }

    /// Writes one phase of a transposed convolution.
    pub fn scatter_conv_transpose_phase_f16(&mut self, rows: usize, bias: usize, output: usize, frames: u32, channels: u32, stride: u32, phase: u32)
        requires
            old(self).wf(),
            rows < old(self).values().len(),
            frames * channels <= old(self).sizes()[rows as int],
            bias < old(self).values().len(),
            channels <= old(self).sizes()[bias as int],
            output < old(self).values().len(),
            channels * (frames * stride) <= old(self).sizes()[output as int],
        ensures
            final(self).wf(),
            final(self).sizes() == old(self).sizes(),
            final(self).values() == old(self).values().update(
                output as int,
                crate::device::value::scatter_conv_transpose_phase_f16(old(self).values()[rows as int], old(self).values()[bias as int], old(self).values()[output as int], frames, channels, stride, phase),
            ),
    {
        let op = Op {
            kernel: Kernel::ScatterConvTransposePhaseF16,
            reads: vec![rows, bias, output],
            writes: vec![output],
            scalars: vec![Scalar::Count(frames), Scalar::Count(channels), Scalar::Count(stride), Scalar::Count(phase)],
        };
        proof {
            assert(op.reads@ =~= seq![rows, bias, output]);
            assert(op.writes@ =~= seq![output]);
            assert(op.scalars@ =~= seq![Scalar::Count(frames), Scalar::Count(channels), Scalar::Count(stride), Scalar::Count(phase)]);
            reveal_with_fuel(gather, 4);
            reveal_with_fuel(store, 2);
            assert(gather(self.values(), op.reads@) =~= seq![self.values()[rows as int], self.values()[bias as int], self.values()[output as int]]);
        }
        self.run(op);
    }

    /// Puts the rows of two matrices side by side.
    pub fn join_rows(&mut self, a: usize, b: usize, out: usize, n_rows: u32, width_a: u32, width_b: u32)
        requires
            old(self).wf(),
            a < old(self).values().len(),
            n_rows * width_a <= old(self).sizes()[a as int],
            b < old(self).values().len(),
            n_rows * width_b <= old(self).sizes()[b as int],
            out < old(self).values().len(),
            n_rows * (width_a + width_b) <= old(self).sizes()[out as int],
        ensures
            final(self).wf(),
            final(self).sizes() == old(self).sizes(),
            final(self).values() == old(self).values().update(
                out as int,
                crate::device::value::join_rows(old(self).values()[a as int], old(self).values()[b as int], n_rows, width_a, width_b),
            ),
    {
        let op = Op {
            kernel: Kernel::JoinRows,
            reads: vec![a, b],
            writes: vec![out],
            scalars: vec![Scalar::Count(n_rows), Scalar::Count(width_a), Scalar::Count(width_b)],
        };
        proof {
            assert(op.reads@ =~= seq![a, b]);
            assert(op.writes@ =~= seq![out]);
            assert(op.scalars@ =~= seq![Scalar::Count(n_rows), Scalar::Count(width_a), Scalar::Count(width_b)]);
            reveal_with_fuel(gather, 3);
            reveal_with_fuel(store, 2);
            assert(gather(self.values(), op.reads@) =~= seq![self.values()[a as int], self.values()[b as int]]);
        }
        self.run(op);
    }

    /// Puts one row behind every row of a matrix.
    pub fn append_row(&mut self, a: usize, row: usize, out: usize, n_rows: u32, width_a: u32, width_b: u32)
        requires
            old(self).wf(),
            a < old(self).values().len(),
            n_rows * width_a <= old(self).sizes()[a as int],
            row < old(self).values().len(),
            width_b <= old(self).sizes()[row as int],
            out < old(self).values().len(),
            n_rows * (width_a + width_b) <= old(self).sizes()[out as int],
        ensures
            final(self).wf(),
            final(self).sizes() == old(self).sizes(),
            final(self).values() == old(self).values().update(
                out as int,
                crate::device::value::append_row(old(self).values()[a as int], old(self).values()[row as int], n_rows, width_a, width_b),
            ),
    {
        let op = Op {
            kernel: Kernel::AppendRow,
            reads: vec![a, row],
            writes: vec![out],
            scalars: vec![Scalar::Count(n_rows), Scalar::Count(width_a), Scalar::Count(width_b)],
        };
        proof {
            assert(op.reads@ =~= seq![a, row]);
            assert(op.writes@ =~= seq![out]);
            assert(op.scalars@ =~= seq![Scalar::Count(n_rows), Scalar::Count(width_a), Scalar::Count(width_b)]);
            reveal_with_fuel(gather, 3);
            reveal_with_fuel(store, 2);
            assert(gather(self.values(), op.reads@) =~= seq![self.values()[a as int], self.values()[row as int]]);
        }
        self.run(op);
    }

    /// Repeats every row as often as its count says.
    pub fn repeat_rows(&mut self, x: usize, counts: usize, out: usize, n_rows: u32, width: u32, total: u32)
        requires
            old(self).wf(),
            x < old(self).values().len(),
            n_rows * width <= old(self).sizes()[x as int],
            counts < old(self).values().len(),
            n_rows <= old(self).sizes()[counts as int],
            out < old(self).values().len(),
            total * width <= old(self).sizes()[out as int],
        ensures
            final(self).wf(),
            final(self).sizes() == old(self).sizes(),
            final(self).values() == old(self).values().update(
                out as int,
                crate::device::value::repeat_rows(old(self).values()[x as int], old(self).values()[counts as int], n_rows, width, total),
            ),
    {
        let op = Op {
            kernel: Kernel::RepeatRows,
            reads: vec![x, counts],
            writes: vec![out],
            scalars: vec![Scalar::Count(n_rows), Scalar::Count(width), Scalar::Count(total)],
        };
        proof {
            assert(op.reads@ =~= seq![x, counts]);
            assert(op.writes@ =~= seq![out]);
            assert(op.scalars@ =~= seq![Scalar::Count(n_rows), Scalar::Count(width), Scalar::Count(total)]);
            reveal_with_fuel(gather, 3);
            reveal_with_fuel(store, 2);
            assert(gather(self.values(), op.reads@) =~= seq![self.values()[x as int], self.values()[counts as int]]);
        }
        self.run(op);
    }

    /// Sums the word row of every token, the row of its position and the first kind row.
    pub fn embed_tokens_f32(&mut self, words: usize, positions: usize, kinds: usize, ids: usize, out: usize, n_rows: u32, dim: u32)
        requires
            old(self).wf(),
            words < old(self).values().len(),
            0 <= old(self).sizes()[words as int],
            positions < old(self).values().len(),
            n_rows * dim <= old(self).sizes()[positions as int],
            kinds < old(self).values().len(),
            dim <= old(self).sizes()[kinds as int],
            ids < old(self).values().len(),
            n_rows <= old(self).sizes()[ids as int],
            out < old(self).values().len(),
            n_rows * dim <= old(self).sizes()[out as int],
        ensures
            final(self).wf(),
            final(self).sizes() == old(self).sizes(),
            final(self).values() == old(self).values().update(
                out as int,
                crate::device::value::embed_tokens_f32(old(self).values()[words as int], old(self).values()[positions as int], old(self).values()[kinds as int], old(self).values()[ids as int], n_rows, dim),
            ),
    {
        let op = Op {
            kernel: Kernel::EmbedTokensF32,
            reads: vec![words, positions, kinds, ids],
            writes: vec![out],
            scalars: vec![Scalar::Count(n_rows), Scalar::Count(dim)],
        };
        proof {
            assert(op.reads@ =~= seq![words, positions, kinds, ids]);
            assert(op.writes@ =~= seq![out]);
            assert(op.scalars@ =~= seq![Scalar::Count(n_rows), Scalar::Count(dim)]);
            reveal_with_fuel(gather, 5);
            reveal_with_fuel(store, 2);
            assert(gather(self.values(), op.reads@) =~= seq![self.values()[words as int], self.values()[positions as int], self.values()[kinds as int], self.values()[ids as int]]);
        }
        self.run(op);
    }

    /// Scale and shift of every channel from a style.
    pub fn style_affine(&mut self, weight: usize, bias: usize, style: usize, gamma: usize, beta: usize, channels: u32, style_dim: u32)
        requires
            old(self).wf(),
            weight < old(self).values().len(),
            2 * channels * style_dim <= old(self).sizes()[weight as int],
            bias < old(self).values().len(),
            2 * channels <= old(self).sizes()[bias as int],
            style < old(self).values().len(),
            style_dim <= old(self).sizes()[style as int],
            gamma < old(self).values().len(),
            channels <= old(self).sizes()[gamma as int],
            beta < old(self).values().len(),
            channels <= old(self).sizes()[beta as int],
            gamma != beta,
        ensures
            final(self).wf(),
            final(self).sizes() == old(self).sizes(),
            final(self).values() == old(self).values().update(
                gamma as int,
                crate::device::value::style_affine_gamma(old(self).values()[weight as int], old(self).values()[bias as int], old(self).values()[style as int], channels, style_dim),
            ).update(
                beta as int,
                crate::device::value::style_affine_beta(old(self).values()[weight as int], old(self).values()[bias as int], old(self).values()[style as int], channels, style_dim),
            ),
    {
        let op = Op {
            kernel: Kernel::StyleAffine,
            reads: vec![weight, bias, style],
            writes: vec![gamma, beta],
            scalars: vec![Scalar::Count(channels), Scalar::Count(style_dim)],
        };
        proof {
            assert(op.reads@ =~= seq![weight, bias, style]);
            assert(op.writes@ =~= seq![gamma, beta]);
            assert(op.scalars@ =~= seq![Scalar::Count(channels), Scalar::Count(style_dim)]);
            reveal_with_fuel(gather, 4);
            reveal_with_fuel(store, 3);
            assert(gather(self.values(), op.reads@) =~= seq![self.values()[weight as int], self.values()[bias as int], self.values()[style as int]]);
        }
        self.run(op);
    }

    /// Normalises every row in place and applies a scale and shift from a style.
    pub fn style_layer_norm(&mut self, hidden: usize, weight: usize, bias: usize, style: usize, n_rows: u32, channels: u32, style_dim: u32, eps: Scalar)
        requires
            old(self).wf(),
            hidden < old(self).values().len(),
            n_rows * channels <= old(self).sizes()[hidden as int],
            weight < old(self).values().len(),
            2 * channels * style_dim <= old(self).sizes()[weight as int],
            bias < old(self).values().len(),
            2 * channels <= old(self).sizes()[bias as int],
            style < old(self).values().len(),
            style_dim <= old(self).sizes()[style as int],
        ensures
            final(self).wf(),
            final(self).sizes() == old(self).sizes(),
            final(self).values() == old(self).values().update(
                hidden as int,
                crate::device::value::style_layer_norm(old(self).values()[hidden as int], old(self).values()[weight as int], old(self).values()[bias as int], old(self).values()[style as int], n_rows, channels, style_dim, eps),
            ),
    {
        let op = Op {
            kernel: Kernel::StyleLayerNorm,
            reads: vec![hidden, weight, bias, style],
            writes: vec![hidden],
            scalars: vec![Scalar::Count(n_rows), Scalar::Count(channels), Scalar::Count(style_dim), eps],
        };
        proof {
            assert(op.reads@ =~= seq![hidden, weight, bias, style]);
            assert(op.writes@ =~= seq![hidden]);
            assert(op.scalars@ =~= seq![Scalar::Count(n_rows), Scalar::Count(channels), Scalar::Count(style_dim), eps]);
            reveal_with_fuel(gather, 5);
            reveal_with_fuel(store, 2);
            assert(gather(self.values(), op.reads@) =~= seq![self.values()[hidden as int], self.values()[weight as int], self.values()[bias as int], self.values()[style as int]]);
        }
        self.run(op);
    }

    /// Gathers the two taps of one phase of a transposed convolution.
    pub fn phase_weight(&mut self, weight: usize, out: usize, in_channels: u32, out_channels: u32, kernel_size: u32, stride: u32, padding: u32, phase: u32)
        requires
            old(self).wf(),
            weight < old(self).values().len(),
            in_channels * out_channels * kernel_size <= old(self).sizes()[weight as int],
            out < old(self).values().len(),
            out_channels * in_channels * 2 <= old(self).sizes()[out as int],
        ensures
            final(self).wf(),
            final(self).sizes() == old(self).sizes(),
            final(self).values() == old(self).values().update(
                out as int,
                crate::device::value::phase_weight(old(self).values()[weight as int], in_channels, out_channels, kernel_size, stride, padding, phase),
            ),
    {
        let op = Op {
            kernel: Kernel::PhaseWeight,
            reads: vec![weight],
            writes: vec![out],
            scalars: vec![Scalar::Count(in_channels), Scalar::Count(out_channels), Scalar::Count(kernel_size), Scalar::Count(stride), Scalar::Count(padding), Scalar::Count(phase)],
        };
        proof {
            assert(op.reads@ =~= seq![weight]);
            assert(op.writes@ =~= seq![out]);
            assert(op.scalars@ =~= seq![Scalar::Count(in_channels), Scalar::Count(out_channels), Scalar::Count(kernel_size), Scalar::Count(stride), Scalar::Count(padding), Scalar::Count(phase)]);
            reveal_with_fuel(gather, 2);
            reveal_with_fuel(store, 2);
            assert(gather(self.values(), op.reads@) =~= seq![self.values()[weight as int]]);
        }
        self.run(op);
    }

    /// `out = relu(x)` over `n` bf16 values.
    pub fn relu_bf16(&mut self, x: usize, out: usize, n: u32)
        requires
            old(self).wf(),
            x < old(self).values().len(),
            n <= old(self).sizes()[x as int],
            out < old(self).values().len(),
            n <= old(self).sizes()[out as int],
        ensures
            final(self).wf(),
            final(self).sizes() == old(self).sizes(),
            final(self).values() == old(self).values().update(
                out as int,
                crate::device::value::relu_bf16(old(self).values()[x as int], n),
            ),
    {
        let op = Op {
            kernel: Kernel::ReluBf16,
            reads: vec![x],
            writes: vec![out],
            scalars: vec![Scalar::Count(n)],
        };
        proof {
            assert(op.reads@ =~= seq![x]);
            assert(op.writes@ =~= seq![out]);
            assert(op.scalars@ =~= seq![Scalar::Count(n)]);
            reveal_with_fuel(gather, 2);
            reveal_with_fuel(store, 2);
            assert(gather(self.values(), op.reads@) =~= seq![self.values()[x as int]]);
        }
        self.run(op);
    }

    /// `out = a + b` over `n` bf16 values.
    pub fn add_bf16(&mut self, a: usize, b: usize, out: usize, n: u32)
        requires
            old(self).wf(),
            a < old(self).values().len(),
            n <= old(self).sizes()[a as int],
            b < old(self).values().len(),
            n <= old(self).sizes()[b as int],
            out < old(self).values().len(),
            n <= old(self).sizes()[out as int],
        ensures
            final(self).wf(),
            final(self).sizes() == old(self).sizes(),
            final(self).values() == old(self).values().update(
                out as int,
                crate::device::value::add_bf16(old(self).values()[a as int], old(self).values()[b as int], n),
            ),
    {
        let op = Op {
            kernel: Kernel::AddBf16,
            reads: vec![a, b],
            writes: vec![out],
            scalars: vec![Scalar::Count(n)],
        };
        proof {
            assert(op.reads@ =~= seq![a, b]);
            assert(op.writes@ =~= seq![out]);
            assert(op.scalars@ =~= seq![Scalar::Count(n)]);
            reveal_with_fuel(gather, 3);
            reveal_with_fuel(store, 2);
            assert(gather(self.values(), op.reads@) =~= seq![self.values()[a as int], self.values()[b as int]]);
        }
        self.run(op);
    }

    /// Fills with ones.
    pub fn ones_bf16(&mut self, out: usize, n: u32)
        requires
            old(self).wf(),
            out < old(self).values().len(),
            n <= old(self).sizes()[out as int],
        ensures
            final(self).wf(),
            final(self).sizes() == old(self).sizes(),
            final(self).values() == old(self).values().update(
                out as int,
                crate::device::value::ones_bf16(n),
            ),
    {
        let op = Op {
            kernel: Kernel::OnesBf16,
            reads: vec![],
            writes: vec![out],
            scalars: vec![Scalar::Count(n)],
        };
        proof {
            assert(op.reads@ =~= seq![]);
            assert(op.writes@ =~= seq![out]);
            assert(op.scalars@ =~= seq![Scalar::Count(n)]);
            reveal_with_fuel(gather, 1);
            reveal_with_fuel(store, 2);
            assert(gather(self.values(), op.reads@) =~= seq![]);
        }
        self.run(op);
    }

    /// Shifts and scales every row by parts of a modulation row.
    pub fn modulate_bf16_batched(&mut self, x: usize, modulation: usize, out: usize, n_rows: u32, dim: u32, parts: u32)
        requires
            old(self).wf(),
            x < old(self).values().len(),
            n_rows * dim <= old(self).sizes()[x as int],
            modulation < old(self).values().len(),
            n_rows * dim * parts <= old(self).sizes()[modulation as int],
            out < old(self).values().len(),
            n_rows * dim <= old(self).sizes()[out as int],
        ensures
            final(self).wf(),
            final(self).sizes() == old(self).sizes(),
            final(self).values() == old(self).values().update(
                out as int,
                crate::device::value::modulate_bf16_batched(old(self).values()[x as int], old(self).values()[modulation as int], n_rows, dim, parts),
            ),
    {
        let op = Op {
            kernel: Kernel::ModulateBf16Batched,
            reads: vec![x, modulation],
            writes: vec![out],
            scalars: vec![Scalar::Count(n_rows), Scalar::Count(dim), Scalar::Count(parts)],
        };
        proof {
            assert(op.reads@ =~= seq![x, modulation]);
            assert(op.writes@ =~= seq![out]);
            assert(op.scalars@ =~= seq![Scalar::Count(n_rows), Scalar::Count(dim), Scalar::Count(parts)]);
            reveal_with_fuel(gather, 3);
            reveal_with_fuel(store, 2);
            assert(gather(self.values(), op.reads@) =~= seq![self.values()[x as int], self.values()[modulation as int]]);
        }
        self.run(op);
    }

    /// Adds rows that are gated by the last part of a modulation row.
    pub fn gated_residual_bf16_batched(&mut self, x: usize, modulation: usize, delta: usize, n_rows: u32, dim: u32)
        requires
            old(self).wf(),
            x < old(self).values().len(),
            n_rows * dim <= old(self).sizes()[x as int],
            modulation < old(self).values().len(),
            n_rows * dim * 3 <= old(self).sizes()[modulation as int],
            delta < old(self).values().len(),
            n_rows * dim <= old(self).sizes()[delta as int],
        ensures
            final(self).wf(),
            final(self).sizes() == old(self).sizes(),
            final(self).values() == old(self).values().update(
                x as int,
                crate::device::value::gated_residual_bf16_batched(old(self).values()[x as int], old(self).values()[modulation as int], old(self).values()[delta as int], n_rows, dim),
            ),
    {
        let op = Op {
            kernel: Kernel::GatedResidualBf16Batched,
            reads: vec![x, modulation, delta],
            writes: vec![x],
            scalars: vec![Scalar::Count(n_rows), Scalar::Count(dim)],
        };
        proof {
            assert(op.reads@ =~= seq![x, modulation, delta]);
            assert(op.writes@ =~= seq![x]);
            assert(op.scalars@ =~= seq![Scalar::Count(n_rows), Scalar::Count(dim)]);
            reveal_with_fuel(gather, 4);
            reveal_with_fuel(store, 2);
            assert(gather(self.values(), op.reads@) =~= seq![self.values()[x as int], self.values()[modulation as int], self.values()[delta as int]]);
        }
        self.run(op);
    }

    /// Adds one row to every row, in place.
    pub fn add_row_f32(&mut self, x: usize, row: usize, n_rows: u32, dim: u32)
        requires
            old(self).wf(),
            x < old(self).values().len(),
            n_rows * dim <= old(self).sizes()[x as int],
            row < old(self).values().len(),
            dim <= old(self).sizes()[row as int],
        ensures
            final(self).wf(),
            final(self).sizes() == old(self).sizes(),
            final(self).values() == old(self).values().update(
                x as int,
                crate::device::value::add_row_f32(old(self).values()[x as int], old(self).values()[row as int], n_rows, dim),
            ),
    {
        let op = Op {
            kernel: Kernel::AddRowF32,
            reads: vec![x, row],
            writes: vec![x],
            scalars: vec![Scalar::Count(n_rows), Scalar::Count(dim)],
        };
        proof {
            assert(op.reads@ =~= seq![x, row]);
            assert(op.writes@ =~= seq![x]);
            assert(op.scalars@ =~= seq![Scalar::Count(n_rows), Scalar::Count(dim)]);
            reveal_with_fuel(gather, 3);
            reveal_with_fuel(store, 2);
            assert(gather(self.values(), op.reads@) =~= seq![self.values()[x as int], self.values()[row as int]]);
        }
        self.run(op);
    }

}

} // verus!
