//! The HiFT vocoder: geometry, weights and the device part of synthesis.
use vstd::prelude::*;
use vstd::string::*;
use crate::arith::{lemma_mul_assoc, lemma_mul_comm, lemma_mul_le};
use crate::device::{Plan, Scalar, Term, extends, holds, sized};
use crate::device::value::{
    add_bias_f16_inplace, add_f16, conv_transpose1d_general_f16, copy_f16_at, elu_f16,
    leaky_relu_f16, matmul_f16, reflection_pad_left_f16, snake_f16, third_f16, transpose_f16,
    unfold_conv1d_f16,
};
use crate::text::{decimal, to_decimal};
use crate::weights::{Absence, Complaint, Fault, Loader, Role, Tensor, weight_normed};

verus! {

/// Bins of a mel frame.
pub const MEL_BINS: usize = 80;

/// Channels of the pitch predictor.
pub const F0_CHANNELS: usize = 512;

/// 0.1 in single precision.
pub const SLOPE_01: u32 = 0x3dcc_cccd;

/// 0.01 in single precision.
pub const SLOPE_001: u32 = 0x3c23_d70a;

/// The number of outputs of a convolution over `input_len` frames.
pub open spec fn conv_len(
    input_len: int,
    kernel: int,
    stride: int,
    padding: int,
    dilation: int,
) -> int {
    (input_len + 2 * padding - dilation * (kernel - 1) - 1) / stride + 1
}

/// The number of outputs of a convolution over `input_len` frames.
pub fn conv_output_len(
    input_len: usize,
    kernel: usize,
    stride: usize,
    padding: usize,
    dilation: usize,
) -> (len: usize)
    requires
        kernel > 0,
        stride > 0,
        input_len + 2 * padding <= usize::MAX,
        dilation * (kernel - 1) + 1 <= input_len + 2 * padding,
        conv_len(
            input_len as int,
            kernel as int,
            stride as int,
            padding as int,
            dilation as int,
        ) <= usize::MAX,
    ensures
        len == conv_len(
            input_len as int,
            kernel as int,
            stride as int,
            padding as int,
            dilation as int,
        ),
{
    proof {
        assert(0 <= dilation * (kernel - 1)) by (nonlinear_arith)
            requires
                dilation >= 0,
                kernel > 0,
        ;
    }
    (input_len + 2 * padding - dilation * (kernel - 1) - 1) / stride + 1
}

/// How many frames there are before upsampling stage `stage`.
pub open spec fn stage_frames(mel_frames: int, stage: int) -> int {
    if stage == 0 {
        mel_frames
    } else if stage == 1 {
        mel_frames * 8
    } else if stage == 2 {
        mel_frames * 40
    } else {
        mel_frames * 120
    }
}

/// How many frames there are before upsampling stage `stage`.
pub fn frames_for_stage(mel_frames: usize, stage: usize) -> (frames: usize)
    requires
        stage <= 3,
        stage_frames(mel_frames as int, stage as int) <= usize::MAX,
    ensures
        frames == stage_frames(mel_frames as int, stage as int),
{
    match stage {
        0 => mel_frames,
        1 => mel_frames * 8,
        2 => mel_frames * 40,
        _ => mel_frames * 120,
    }
}

/// The index that `index` is reflected to at the borders of `len` samples.
pub open spec fn reflected(index: int, len: int) -> int {
    if index < 0 {
        -index
    } else if index >= len {
        2 * len - index - 2
    } else {
        index
    }
}

/// The index that `index` is reflected to at the borders of `len` samples.
pub fn reflect_index(index: isize, len: usize) -> (position: usize)
    requires
        index > isize::MIN,
        2 * len <= isize::MAX,
        index < 2 * len - 1,
    ensures
        position == reflected(index as int, len as int),
{
    if index < 0 {
        (-index) as usize
    } else if index >= len as isize {
        (2 * len as isize - index - 2) as usize
    } else {
        index as usize
    }
}

/// Reflection of an index that is less than one length away stays within the
/// samples.
pub proof fn law_reflection_stays_within(index: int, len: int)
    requires
        -len < index < 2 * len - 1,
    ensures
        0 <= reflected(index, len) < len,
{
}

/// Reflection does nothing to an index within the samples.
pub proof fn law_reflection_keeps_inner_indices(index: int, len: int)
    requires
        0 <= index < len,
    ensures
        reflected(index, len) == index,
{
}

/// The number of outputs of a transposed convolution over `input_len` frames.
pub open spec fn transposed_len(input_len: int, kernel: int, stride: int, padding: int) -> int {
    (input_len - 1) * stride - 2 * padding + kernel
}

/// Kernel, stride and padding of each upsampling stage.
pub open spec fn up_kernel(stage: int) -> int {
    if stage == 0 {
        16
    } else if stage == 1 {
        11
    } else {
        7
    }
}

pub open spec fn up_stride(stage: int) -> int {
    if stage == 0 {
        8
    } else if stage == 1 {
        5
    } else {
        3
    }
}

pub open spec fn up_padding(stage: int) -> int {
    if stage == 0 {
        4
    } else if stage == 1 {
        3
    } else {
        2
    }
}

/// Kernel, stride and padding of each source branch.
pub open spec fn down_kernel(stage: int) -> int {
    if stage == 0 {
        30
    } else if stage == 1 {
        6
    } else {
        1
    }
}

pub open spec fn down_stride(stage: int) -> int {
    if stage == 0 {
        15
    } else if stage == 1 {
        3
    } else {
        1
    }
}

pub open spec fn down_padding(stage: int) -> int {
    if stage == 0 {
        7
    } else if stage == 1 {
        1
    } else {
        0
    }
}

/// Each upsampling stage makes exactly the frames of the next stage.
pub proof fn law_upsampling_matches_the_stages(mel_frames: int, stage: int)
    requires
        mel_frames > 0,
        0 <= stage < 3,
    ensures
        transposed_len(
            stage_frames(mel_frames, stage),
            up_kernel(stage),
            up_stride(stage),
            up_padding(stage),
        ) == stage_frames(mel_frames, stage + 1),
{
}

/// Each source branch has exactly the frames of the main branch it is added
/// to; the last stage has one more, by reflection.
pub proof fn law_source_matches_the_main_branch(mel_frames: int, stage: int)
    requires
        mel_frames > 0,
        0 <= stage < 3,
    ensures
        conv_len(
            mel_frames * 120 + 1,
            down_kernel(stage),
            down_stride(stage),
            down_padding(stage),
            1,
        ) == stage_frames(mel_frames, stage + 1) + (if stage == 2 { 1int } else { 0 }),
{
}

/// Frames of a short-time transform of hop 4 and width 16 over `samples`
/// samples padded by half a width on both sides.
pub open spec fn stft_frames(samples: int) -> int {
    (samples + 2 * 8 - 16) / 4 + 1
}

/// Samples of the inverse transform of `frames` frames, without the padding.
pub open spec fn istft_samples(frames: int) -> int {
    16 + 4 * (frames - 1) - 16
}

/// The excitation of 480 samples per mel frame has 120 frames per mel frame
/// and one more.
pub proof fn law_source_frames(mel_frames: int)
    requires
        mel_frames > 0,
    ensures
        stft_frames(mel_frames * 480) == mel_frames * 120 + 1,
{
}

/// Every mel frame becomes 480 samples.
pub proof fn law_480_samples_per_mel_frame(mel_frames: int)
    requires
        mel_frames > 0,
    ensures
        istft_samples(mel_frames * 120 + 1) == mel_frames * 480,
{
}

/// A convolution of stride one, padded by half its reach, keeps the number of
/// frames.
pub proof fn law_centred_convolution_keeps_length(frames: int, kernel: int, dilation: int)
    requires
        kernel > 0,
        kernel % 2 == 1,
        dilation > 0,
    ensures
        conv_len(frames, kernel, 1, (kernel * dilation - dilation) / 2, dilation) == frames,
{
    let half = kernel / 2;
    assert(kernel == 2 * half + 1);
    assert(kernel * dilation - dilation == 2 * (half * dilation)) by (nonlinear_arith)
        requires
            kernel == 2 * half + 1,
    ;
    assert(dilation * (kernel - 1) == 2 * (half * dilation)) by (nonlinear_arith)
        requires
            kernel == 2 * half + 1,
    ;
}

/// The state of the excitation's random sequence.
#[derive(Clone, Copy, Debug, PartialEq, Eq, Structural)]
pub struct GaussianRng {
    pub state: u64,
}

/// The state after one step of the sequence.
pub open spec fn next_state(state: u64) -> u64 {
    let a = state ^ (state << 13);
    let b = a ^ (a >> 7);
    b ^ (b << 17)
}

impl GaussianRng {
    /// Starts a sequence; a zero seed counts as one.
    pub fn new(seed: u64) -> (rng: Self)
        ensures
            rng.state == (if seed == 0 { 1 } else { seed }),
    {
        GaussianRng { state: if seed == 0 { 1 } else { seed } }
    }

    /// Draws 24 random bits.
    pub fn draw(&mut self) -> (bits: u32)
        ensures
            final(self).state == next_state(old(self).state),
            bits == next_state(old(self).state) >> 40,
            bits < 0x100_0000,
    {
        let mut s: u64 = self.state;
        s = s ^ (s << 13);
        s = s ^ (s >> 7);
        s = s ^ (s << 17);
        self.state = s;
        assert(s >> 40 < 0x100_0000) by (bit_vector);
        (s >> 40) as u32
    }
}

/// The sequence never falls into the zero state.
pub proof fn law_state_stays_non_zero(state: u64)
    requires
        state != 0,
    ensures
        next_state(state) != 0,
{
    let a = state ^ (state << 13);
    assert(state != 0 ==> state ^ (state << 13) != 0) by (bit_vector);
    let b = a ^ (a >> 7);
    assert(a != 0 ==> a ^ (a >> 7) != 0) by (bit_vector);
    assert(b != 0 ==> b ^ (b << 17) != 0) by (bit_vector);
}

/// A convolution, as buffers.
#[derive(Clone, Copy, Debug, PartialEq, Eq, Structural)]
pub struct Conv1d {
    pub weight: usize,
    pub bias: usize,
    pub in_channels: usize,
    pub out_channels: usize,
    pub kernel: usize,
}

/// A transposed convolution, as buffers.
#[derive(Clone, Copy, Debug, PartialEq, Eq, Structural)]
pub struct ConvTranspose1d {
    pub weight: usize,
    pub bias: usize,
    pub in_channels: usize,
    pub out_channels: usize,
    pub kernel: usize,
    pub stride: usize,
    pub padding: usize,
}

/// Three pairs of activated convolutions, as buffers from `first` on: for each
/// pair an activation, row lengths, rows and bias, twice.
#[derive(Clone, Copy, Debug, PartialEq, Eq, Structural)]
pub struct HiFTResBlock {
    pub first: usize,
    pub channels: usize,
    pub kernel: usize,
}

/// The complaint of a tensor of the wrong shape.
pub open spec fn invalid_shape(name: Seq<char>) -> Seq<char> {
    "invalid "@ + name + " shape"@
}

/// The three tensors of a weight-normalised convolution.
pub open spec fn normed_tensors(
    prefix: Seq<char>,
    absence: Absence,
    a: usize,
    b: usize,
    c: usize,
    bias: usize,
) -> Seq<Tensor> {
    let g = prefix + ".parametrizations.weight.original0"@;
    let v = prefix + ".parametrizations.weight.original1"@;
    let s = prefix + ".bias"@;
    weight_normed(
        (g, v, s),
        (invalid_shape(g), invalid_shape(v), invalid_shape(s)),
        absence,
        a,
        b,
        c,
        bias,
    )
}

/// `invalid <name> shape`.
fn invalid(name: &str) -> (message: String)
    ensures
        message@ == invalid_shape(name@),
{
    "invalid ".to_owned().concat(name).concat(" shape")
}

/// Requires the three tensors of a weight-normalised convolution.
fn load_normed(
    loader: &mut Loader,
    prefix: &str,
    absence: Absence,
    a: usize,
    b: usize,
    c: usize,
    bias: usize,
) -> (first: usize)
    requires
        old(loader).wf(),
        a * b <= usize::MAX,
        a * b * c <= usize::MAX,
    ensures
        final(loader).wf(),
        first == old(loader).tensors().len(),
        final(loader).tensors() == old(loader).tensors() + normed_tensors(
            prefix@,
            absence,
            a,
            b,
            c,
            bias,
        ),
        final(loader).tensors().len() == old(loader).tensors().len() + 3,
{
    let g = prefix.to_owned().concat(".parametrizations.weight.original0");
    let v = prefix.to_owned().concat(".parametrizations.weight.original1");
    let s = prefix.to_owned().concat(".bias");
    let faults = (invalid(g.as_str()), invalid(v.as_str()), invalid(s.as_str()));
    loader.weight_normed((g, v, s), faults, absence, a, b, c, bias)
}

/// The weight-normalised convolution whose first tensor is buffer `base`.
pub open spec fn conv_at(base: int, in_channels: int, out_channels: int, kernel: int) -> Conv1d {
    Conv1d {
        weight: (base + 1) as usize,
        bias: (base + 2) as usize,
        in_channels: in_channels as usize,
        out_channels: out_channels as usize,
        kernel: kernel as usize,
    }
}

/// Requires a weight-normalised convolution.
fn load_weight_norm_conv(
    loader: &mut Loader,
    prefix: &str,
    in_channels: usize,
    out_channels: usize,
    kernel: usize,
) -> (conv: Conv1d)
    requires
        old(loader).wf(),
        in_channels <= 512,
        out_channels <= 512,
        kernel <= 16,
    ensures
        final(loader).wf(),
        conv == conv_at(
            old(loader).tensors().len() as int,
            in_channels as int,
            out_channels as int,
            kernel as int,
        ),
        final(loader).tensors() == old(loader).tensors() + normed_tensors(
            prefix@,
            Absence::Unloaded,
            out_channels,
            in_channels,
            kernel,
            out_channels,
        ),
        final(loader).tensors().len() == old(loader).tensors().len() + 3,
{
    proof {
        lemma_small(out_channels as int, in_channels as int, kernel as int);
    }
    let first: usize = load_normed(
        loader,
        prefix,
        Absence::Unloaded,
        out_channels,
        in_channels,
        kernel,
        out_channels,
    );
    let marker: usize = loader.count();
    Conv1d { weight: marker - 2, bias: marker - 1, in_channels, out_channels, kernel }
}

/// A small cube has few elements.
proof fn lemma_small(a: int, b: int, c: int)
    requires
        0 <= a <= 512,
        0 <= b <= 512,
        0 <= c <= 16,
    ensures
        0 <= a * b <= 262144,
        0 <= a * b * c <= 4194304,
{
    lemma_mul_le(a, b, 512, 512);
    lemma_mul_le(a * b, c, 262144, 16);
}

/// The two tensors of a plain convolution.
pub open spec fn plain_tensors(
    prefix: Seq<char>,
    in_channels: usize,
    out_channels: usize,
    kernel: usize,
) -> Seq<Tensor> {
    seq![
        Tensor {
            name: prefix + ".weight"@,
            shape: seq![out_channels, in_channels, kernel],
            fault: Fault::fixed(invalid_shape(prefix + ".weight"@)).before(1),
            role: Role::Plain,
        },
        Tensor {
            name: prefix + ".bias"@,
            shape: seq![out_channels],
            fault: Fault::fixed(invalid_shape(prefix + ".bias"@)),
            role: Role::Plain,
        },
    ]
}

/// Requires a plain convolution.
fn load_plain_conv(
    loader: &mut Loader,
    prefix: &str,
    in_channels: usize,
    out_channels: usize,
    kernel: usize,
) -> (conv: Conv1d)
    requires
        old(loader).wf(),
        in_channels <= 512,
        out_channels <= 512,
        kernel <= 30,
    ensures
        final(loader).wf(),
        conv == (Conv1d {
            weight: old(loader).tensors().len() as usize,
            bias: (old(loader).tensors().len() + 1) as usize,
            in_channels,
            out_channels,
            kernel,
        }),
        final(loader).tensors() == old(loader).tensors() + plain_tensors(
            prefix@,
            in_channels,
            out_channels,
            kernel,
        ),
        final(loader).tensors().len() == old(loader).tensors().len() + 2,
{
    proof {
        lemma_mul_le(out_channels as int, in_channels as int, 512, 512);
        lemma_mul_le(out_channels * in_channels, kernel as int, 262144, 30);
    }
    let ghost before = loader.tensors();
    let weight_name = prefix.to_owned().concat(".weight");
    let weight_fault = invalid(weight_name.as_str());
    let weight: usize = loader.cube(
        weight_name,
        out_channels,
        in_channels,
        kernel,
        Complaint::fixed(weight_fault).before(1),
    );
    let bias_name = prefix.to_owned().concat(".bias");
    let bias_fault = invalid(bias_name.as_str());
    let bias: usize = loader.vector(bias_name, out_channels, Complaint::fixed(bias_fault));
    assert(loader.tensors() =~= before + plain_tensors(
        prefix@,
        in_channels,
        out_channels,
        kernel,
    ));
    Conv1d { weight, bias, in_channels, out_channels, kernel }
}

/// The tensors of the `half`-th convolution of pair `index`.
pub open spec fn snake_conv_tensors(
    prefix: Seq<char>,
    channels: usize,
    kernel: usize,
    index: nat,
    half: nat,
) -> Seq<Tensor> {
    let alpha = prefix + ".activations"@ + decimal(half) + "."@ + decimal(index) + ".alpha"@;
    seq![
        Tensor {
            name: alpha,
            shape: seq![channels],
            fault: Fault::fixed("invalid "@ + alpha),
            role: Role::Plain,
        },
    ] + normed_tensors(
        prefix + ".convs"@ + decimal(half) + "."@ + decimal(index),
        Absence::Unloaded,
        channels,
        channels,
        kernel,
        channels,
    )
}

/// The tensors of the first `n` pairs of a block.
pub open spec fn block_tensors(prefix: Seq<char>, channels: usize, kernel: usize, n: nat) -> Seq<
    Tensor,
>
    decreases n,
{
    if n == 0 {
        seq![]
    } else {
        block_tensors(prefix, channels, kernel, (n - 1) as nat) + snake_conv_tensors(
            prefix,
            channels,
            kernel,
            (n - 1) as nat,
            1,
        ) + snake_conv_tensors(prefix, channels, kernel, (n - 1) as nat, 2)
    }
}

/// Requires one activated convolution.
fn load_snake_conv(
    loader: &mut Loader,
    prefix: &str,
    channels: usize,
    kernel: usize,
    index: usize,
    half: usize,
)
    requires
        old(loader).wf(),
        channels * channels <= usize::MAX,
        channels * channels * kernel <= usize::MAX,
    ensures
        final(loader).wf(),
        final(loader).tensors() == old(loader).tensors() + snake_conv_tensors(
            prefix@,
            channels,
            kernel,
            index as nat,
            half as nat,
        ),
        final(loader).tensors().len() == old(loader).tensors().len() + 4,
{
    let ghost before = loader.tensors();
    let alpha = prefix.to_owned().concat(".activations").concat(&to_decimal(half as u64)).concat(
        ".",
    ).concat(&to_decimal(index as u64)).concat(".alpha");
    let fault = "invalid ".to_owned().concat(alpha.as_str());
    let activation: usize = loader.vector(alpha, channels, Complaint::fixed(fault));
    let name = prefix.to_owned().concat(".convs").concat(&to_decimal(half as u64)).concat(".").concat(
        &to_decimal(index as u64),
    );
    let first: usize = load_normed(
        loader,
        name.as_str(),
        Absence::Unloaded,
        channels,
        channels,
        kernel,
        channels,
    );
    assert(loader.tensors() =~= before + snake_conv_tensors(
        prefix@,
        channels,
        kernel,
        index as nat,
        half as nat,
    ));
}

impl HiFTResBlock {
    /// Requires the tensors of a block.
    pub fn load(loader: &mut Loader, prefix: &str, channels: usize, kernel: usize) -> (block: Self)
        requires
            old(loader).wf(),
            channels * channels <= usize::MAX,
            channels * channels * kernel <= usize::MAX,
        ensures
            final(loader).wf(),
            block == (HiFTResBlock {
                first: old(loader).tensors().len() as usize,
                channels,
                kernel,
            }),
            final(loader).tensors() == old(loader).tensors() + block_tensors(
                prefix@,
                channels,
                kernel,
                3,
            ),
            final(loader).tensors().len() == old(loader).tensors().len() + 24,
    {
        let first: usize = loader.count();
        let ghost before = loader.tensors();
        assert(before + block_tensors(prefix@, channels, kernel, 0) =~= before);
        for i in 0..3usize
            invariant
                loader.wf(),
                channels * channels <= usize::MAX,
                channels * channels * kernel <= usize::MAX,
                loader.tensors() == before + block_tensors(prefix@, channels, kernel, i as nat),
                loader.tensors().len() == before.len() + 8 * i,
        {
            load_snake_conv(loader, prefix, channels, kernel, i, 1);
            load_snake_conv(loader, prefix, channels, kernel, i, 2);
            assert(loader.tensors() =~= before + block_tensors(
                prefix@,
                channels,
                kernel,
                (i + 1) as nat,
            ));
        }
        HiFTResBlock { first, channels, kernel }
    }

    /// The weights exist at their full size.
    pub open spec fn fits(self, plan: Plan) -> bool {
        &&& self.first + 24 <= plan.values().len()
        &&& self.first + 24 <= usize::MAX
        &&& forall|i: int|
            0 <= i < 6 ==> {
                &&& self.channels <= #[trigger] plan.sizes()[self.first + 4 * i]
                &&& self.channels * self.channels * self.kernel <= plan.sizes()[self.first + 4 * i
                    + 2]
                &&& self.channels <= plan.sizes()[self.first + 4 * i + 3]
            }
    }

    /// Convolution `i` of the six, in loading order.
    pub open spec fn conv(self, i: int) -> Conv1d {
        Conv1d {
            weight: (self.first + 4 * i + 2) as usize,
            bias: (self.first + 4 * i + 3) as usize,
            in_channels: self.channels,
            out_channels: self.channels,
            kernel: self.kernel,
        }
    }
}

/// A convolution of channel-first frames.
#[verifier::opaque]
pub open spec fn convolved(
    x: Term,
    conv: Conv1d,
    plan: Plan,
    input_len: int,
    stride: int,
    padding: int,
    dilation: int,
) -> Term {
    let out_len = conv_len(input_len, conv.kernel as int, stride, padding, dilation) as u32;
    let width = (conv.in_channels * conv.kernel) as u32;
    let out = conv.out_channels as u32;
    let unfolded = unfold_conv1d_f16(
        x,
        conv.in_channels as u32,
        input_len as u32,
        out_len,
        conv.kernel as u32,
        stride as u32,
        padding as u32,
        dilation as u32,
    );
    transpose_f16(
        add_bias_f16_inplace(
            matmul_f16(unfolded, plan.values()[conv.weight as int], out_len, out, width),
            plan.values()[conv.bias as int],
            out_len,
            out,
        ),
        out_len,
        out,
    )
}

/// The weights of a convolution exist at their full size.
pub open spec fn conv_fits(conv: Conv1d, plan: Plan) -> bool {
    &&& holds(plan, conv.weight, conv.out_channels * conv.in_channels * conv.kernel)
    &&& holds(plan, conv.bias, conv.out_channels as int)
    &&& 0 < conv.kernel <= 30
    &&& conv.in_channels <= 512
    &&& conv.out_channels <= 512
}

/// Runs a convolution over `input_len` channel-first frames. The result names
/// the buffer of the channel-first output.
fn run_conv(
    plan: &mut Plan,
    input: usize,
    input_len: usize,
    conv: &Conv1d,
    stride: usize,
    padding: usize,
    dilation: usize,
    Ghost(start): Ghost<Plan>,
    Ghost(out_len): Ghost<int>,
) -> (output: usize)
    requires
        old(plan).wf(),
        extends(start, *old(plan)),
        conv_fits(*conv, start),
        holds(*old(plan), input, conv.in_channels * input_len),
        input_len <= u32::MAX,
        0 < stride <= 15,
        padding <= 100,
        dilation <= 5,
        dilation * (conv.kernel - 1) + 1 <= input_len + 2 * padding,
        input_len + 2 * padding <= usize::MAX,
        out_len == conv_len(
            input_len as int,
            conv.kernel as int,
            stride as int,
            padding as int,
            dilation as int,
        ),
        0 <= out_len <= u32::MAX,
        out_len * (conv.in_channels * conv.kernel) <= usize::MAX,
        out_len * conv.out_channels <= u32::MAX,
    ensures
        final(plan).wf(),
        extends(*old(plan), *final(plan)),
        final(plan).values().len() == old(plan).values().len() + 3,
        old(plan).values().len() <= output < final(plan).values().len(),
        final(plan).sizes()[output as int] == conv.out_channels * out_len,
        final(plan).values()[output as int] == convolved(
            old(plan).values()[input as int],
            *conv,
            start,
            input_len as int,
            stride as int,
            padding as int,
            dilation as int,
        ),
{
    proof {
        reveal(convolved);
        lemma_mul_le(conv.in_channels as int, conv.kernel as int, 512, 30);
        lemma_mul_assoc(conv.out_channels as int, conv.in_channels as int, conv.kernel as int);
        lemma_mul_comm(out_len, conv.out_channels as int);
    }
    let n: usize = conv_output_len(input_len, conv.kernel, stride, padding, dilation);
    let width: usize = conv.in_channels * conv.kernel;
    let unfolded: usize = plan.zeros(n * width);
    plan.unfold_conv1d_f16(
        input,
        unfolded,
        conv.in_channels as u32,
        input_len as u32,
        n as u32,
        conv.kernel as u32,
        stride as u32,
        padding as u32,
        dilation as u32,
    );
    let rows: usize = plan.zeros(n * conv.out_channels);
    plan.matmul_f16(
        unfolded,
        conv.weight,
        rows,
        n as u32,
        conv.out_channels as u32,
        width as u32,
    );
    plan.add_bias_f16_inplace(rows, conv.bias, n as u32, conv.out_channels as u32);
    let output: usize = plan.zeros(conv.out_channels * n);
    plan.transpose_f16(rows, output, n as u32, conv.out_channels as u32);
    output
}

/// The dilation of pair `i` of a block.
pub open spec fn pair_dilation(i: int) -> int {
    2 * i + 1
}

/// One pair of activated convolutions added to its input.
pub open spec fn pair_value(block: HiFTResBlock, plan: Plan, x: Term, frames: int, i: int) -> Term {
    let v = plan.values();
    let channels = block.channels as u32;
    let d = pair_dilation(i);
    let k = block.kernel as int;
    let first = convolved(
        snake_f16(x, v[block.first + 8 * i], channels, frames as u32),
        block.conv(2 * i),
        plan,
        frames,
        1,
        (k * d - d) / 2,
        d,
    );
    let second = convolved(
        snake_f16(first, v[block.first + 8 * i + 4], channels, frames as u32),
        block.conv(2 * i + 1),
        plan,
        frames,
        1,
        (k - 1) / 2,
        1,
    );
    add_f16(x, second, (block.channels * frames) as u32)
}

/// The first `n` pairs of a block.
pub open spec fn block_value(
    block: HiFTResBlock,
    plan: Plan,
    x: Term,
    frames: int,
    n: nat,
) -> Term
    decreases n,
{
    if n == 0 {
        x
    } else {
        pair_value(
            block,
            plan,
            block_value(block, plan, x, frames, (n - 1) as nat),
            frames,
            n - 1,
        )
    }
}

/// `frames` frames of a block can be counted.
pub open spec fn block_counts(block: HiFTResBlock, frames: int) -> bool {
    &&& 0 < frames
    &&& frames + 50 <= u32::MAX
    &&& block.channels <= 256
    &&& block.kernel == 3 || block.kernel == 7 || block.kernel == 11
    &&& block.channels * frames <= u32::MAX
    &&& frames * (block.channels * block.kernel) <= usize::MAX
}

/// The padding of a pair's convolutions is half their reach.
proof fn lemma_pair(k: int, i: int, frames: int)
    requires
        k == 3 || k == 7 || k == 11,
        0 <= i < 3,
        frames > 0,
    ensures
        ({
            let d = pair_dilation(i);
            &&& 0 < d <= 5
            &&& 0 < k * d <= 55
            &&& d <= k * d
            &&& d * (k - 1) == k * d - d
            &&& d * (k - 1) == 2 * ((k * d - d) / 2)
            &&& (k * d - d) / 2 <= 25
            &&& conv_len(frames, k, 1, (k * d - d) / 2, d) == frames
            &&& conv_len(frames, k, 1, (k - 1) / 2, 1) == frames
        }),
{
    let d = pair_dilation(i);
    if i == 0 {
        assert(d == 1);
    } else if i == 1 {
        assert(d == 3);
    } else {
        assert(d == 5);
    }
    if k == 3 {
        assert(k * d == 3 * d && d * (k - 1) == 2 * d) by (nonlinear_arith)
            requires
                k == 3,
        ;
    } else if k == 7 {
        assert(k * d == 7 * d && d * (k - 1) == 6 * d) by (nonlinear_arith)
            requires
                k == 7,
        ;
    } else {
        assert(k * d == 11 * d && d * (k - 1) == 10 * d) by (nonlinear_arith)
            requires
                k == 11,
        ;
    }
}

impl HiFTResBlock {
    /// Runs one pair. The result names the buffer of the sum.
    fn run_pair(
        &self,
        plan: &mut Plan,
        hidden: usize,
        frames: usize,
        i: usize,
        Ghost(start): Ghost<Plan>,
    ) -> (output: usize)
        requires
            old(plan).wf(),
            extends(start, *old(plan)),
            self.fits(start),
            block_counts(*self, frames as int),
            i < 3,
            hidden < old(plan).values().len(),
            old(plan).sizes()[hidden as int] == self.channels * frames,
        ensures
            final(plan).wf(),
            extends(*old(plan), *final(plan)),
            final(plan).values().len() == old(plan).values().len() + 9,
            old(plan).values().len() <= output < final(plan).values().len(),
            final(plan).sizes()[output as int] == self.channels * frames,
            final(plan).values()[output as int] == pair_value(
                *self,
                start,
                old(plan).values()[hidden as int],
                frames as int,
                i as int,
            ),
    {
        proof {
            lemma_pair(self.kernel as int, i as int, frames as int);
        }
        let n: usize = plan.size(hidden);
        let dilation: usize = 2 * i + 1;
        let reach: usize = self.kernel * dilation - dilation;
        let padding: usize = reach / 2;
        let first_conv = Conv1d {
            weight: self.first + 8 * i + 2,
            bias: self.first + 8 * i + 3,
            in_channels: self.channels,
            out_channels: self.channels,
            kernel: self.kernel,
        };
        let second_conv = Conv1d {
            weight: self.first + 8 * i + 6,
            bias: self.first + 8 * i + 7,
            in_channels: self.channels,
            out_channels: self.channels,
            kernel: self.kernel,
        };
        proof {
            assert(self.channels <= start.sizes()[self.first + 4 * (2 * i)]);
            assert(self.channels <= start.sizes()[self.first + 4 * (2 * i + 1)]);
            lemma_mul_comm(self.channels as int, frames as int);
        }
        let activated: usize = plan.zeros(n);
        plan.snake_f16(
            hidden,
            self.first + 8 * i,
            activated,
            self.channels as u32,
            frames as u32,
        );
        let first: usize = run_conv(
            plan,
            activated,
            frames,
            &first_conv,
            1,
            padding,
            dilation,
            Ghost(start),
            Ghost(frames as int),
        );
        let activated2: usize = plan.zeros(n);
        plan.snake_f16(
            first,
            self.first + 8 * i + 4,
            activated2,
            self.channels as u32,
            frames as u32,
        );
        let second: usize = run_conv(
            plan,
            activated2,
            frames,
            &second_conv,
            1,
            (self.kernel - 1) / 2,
            1,
            Ghost(start),
            Ghost(frames as int),
        );
        let residual: usize = plan.zeros(n);
        plan.add_f16(hidden, second, residual, n as u32);
        residual
    }

    /// Runs the block over `frames` frames. The result names the buffer of
    /// its output.
    pub(crate) fn forward(
        &self,
        plan: &mut Plan,
        hidden: usize,
        frames: usize,
        Ghost(start): Ghost<Plan>,
    ) -> (output: usize)
        requires
            old(plan).wf(),
            extends(start, *old(plan)),
            self.fits(start),
            block_counts(*self, frames as int),
            hidden < old(plan).values().len(),
            old(plan).sizes()[hidden as int] == self.channels * frames,
        ensures
            final(plan).wf(),
            extends(*old(plan), *final(plan)),
            final(plan).values().len() == old(plan).values().len() + 27,
            old(plan).values().len() <= output < final(plan).values().len(),
            final(plan).sizes()[output as int] == self.channels * frames,
            final(plan).values()[output as int] == block_value(
                *self,
                start,
                old(plan).values()[hidden as int],
                frames as int,
                3,
            ),
    {
        proof {
            reveal_with_fuel(block_value, 4);
        }
        let a: usize = self.run_pair(plan, hidden, frames, 0, Ghost(start));
        let b: usize = self.run_pair(plan, a, frames, 1, Ghost(start));
        self.run_pair(plan, b, frames, 2, Ghost(start))
    }
}

/// The pitch predictor, as buffers.
pub struct ChatterboxF0Predictor {
    pub layers: Vec<Conv1d>,
    pub classifier_weight: usize,
    pub classifier_bias: usize,
}

/// Input channels of pitch layer `i`.
pub open spec fn f0_input(i: int) -> int {
    if i == 0 {
        80
    } else {
        512
    }
}

/// The tensors of the first `n` pitch layers.
pub open spec fn f0_layers_tensors(n: nat) -> Seq<Tensor>
    decreases n,
{
    if n == 0 {
        seq![]
    } else {
        f0_layers_tensors((n - 1) as nat) + normed_tensors(
            "mel2wav.f0_predictor.condnet."@ + decimal((2 * (n - 1)) as nat),
            Absence::Unloaded,
            512,
            f0_input(n - 1) as usize,
            3,
            512,
        )
    }
}

/// The tensors of the pitch predictor.
pub open spec fn f0_tensors() -> Seq<Tensor> {
    f0_layers_tensors(5) + seq![
        Tensor {
            name: "mel2wav.f0_predictor.classifier.weight"@,
            shape: seq![1, 512],
            fault: Fault::fixed("invalid F0 classifier"@),
            role: Role::Plain,
        },
        Tensor {
            name: "mel2wav.f0_predictor.classifier.bias"@,
            shape: seq![1],
            fault: Fault::fixed("invalid F0 classifier bias"@),
            role: Role::Plain,
        },
    ]
}

/// The channels after the first `n` pitch layers.
pub open spec fn f0_stream(
    layers: Seq<Conv1d>,
    plan: Plan,
    x: Term,
    frames: int,
    n: nat,
) -> Term
    decreases n,
{
    if n == 0 {
        x
    } else {
        elu_f16(
            convolved(
                f0_stream(layers, plan, x, frames, (n - 1) as nat),
                layers[n - 1],
                plan,
                frames,
                1,
                1,
                1,
            ),
            (512 * frames) as u32,
        )
    }
}

/// Why pitch cannot be predicted, if it cannot.
pub open spec fn f0_fault(mel_len: usize, frames: usize) -> Option<Seq<char>> {
    if frames == 0 {
        Some("F0 input must not be empty"@)
    } else if mel_len != frames * 80 {
        Some(
            "F0 input has "@ + decimal(mel_len as nat) + " values, expected "@ + decimal(
                (frames * 80) as nat,
            ),
        )
    } else {
        None
    }
}

impl ChatterboxF0Predictor {
    /// The fundamental of every frame of a frame-major spectrogram.
    pub open spec fn fundamental(self, plan: Plan, mel: Term, frames: int) -> Term {
        let x = transpose_f16(mel, frames as u32, 80);
        matmul_f16(
            transpose_f16(f0_stream(self.layers@, plan, x, frames, 5), 512, frames as u32),
            plan.values()[self.classifier_weight as int],
            frames as u32,
            1,
            512,
        )
    }

    /// The layers form a chain from 80 to 512 channels, and their weights
    /// exist.
    pub open spec fn fits(self, plan: Plan) -> bool {
        &&& self.layers@.len() == 5
        &&& forall|i: int|
            0 <= i < 5 ==> {
                let layer = #[trigger] self.layers@[i];
                &&& conv_fits(layer, plan)
                &&& layer.in_channels == f0_input(i)
                &&& layer.out_channels == 512
                &&& layer.kernel == 3
            }
        &&& holds(plan, self.classifier_weight, 512)
    }

    /// Requires the weights of the pitch predictor.
    pub fn load(loader: &mut Loader) -> (model: Self)
        requires
            old(loader).wf(),
        ensures
            final(loader).wf(),
            model.layers@.len() == 5,
            forall|i: int|
                0 <= i < 5 ==> #[trigger] model.layers@[i] == conv_at(
                    old(loader).tensors().len() + 3 * i,
                    f0_input(i),
                    512,
                    3,
                ),
            model.classifier_weight == old(loader).tensors().len() + 15,
            model.classifier_bias == old(loader).tensors().len() + 16,
            final(loader).tensors() == old(loader).tensors() + f0_tensors(),
            final(loader).tensors().len() == old(loader).tensors().len() + 17,
    {
        let ghost start = loader.tensors();
        let mut layers: Vec<Conv1d> = Vec::new();
        assert(start + f0_layers_tensors(0) =~= start);
        for i in 0..5usize
            invariant
                loader.wf(),
                start == old(loader).tensors(),
                layers@.len() == i,
                forall|j: int|
                    0 <= j < i ==> #[trigger] layers@[j] == conv_at(
                        start.len() + 3 * j,
                        f0_input(j),
                        512,
                        3,
                    ),
                loader.tensors() == start + f0_layers_tensors(i as nat),
                loader.tensors().len() == start.len() + 3 * i,
        {
            let prefix = "mel2wav.f0_predictor.condnet.".to_owned().concat(
                &to_decimal((2 * i) as u64),
            );
            let input: usize = if i == 0 {
                80
            } else {
                512
            };
            let layer = load_weight_norm_conv(loader, prefix.as_str(), input, 512, 3);
            layers.push(layer);
            assert(loader.tensors() =~= start + f0_layers_tensors((i + 1) as nat));
        }
        let classifier_weight: usize = loader.matrix(
            "mel2wav.f0_predictor.classifier.weight".to_owned(),
            1,
            512,
            Complaint::fixed("invalid F0 classifier".to_owned()),
        );
        let classifier_bias: usize = loader.vector(
            "mel2wav.f0_predictor.classifier.bias".to_owned(),
            1,
            Complaint::fixed("invalid F0 classifier bias".to_owned()),
        );
        assert(loader.tensors() =~= start + f0_tensors());
        ChatterboxF0Predictor { layers, classifier_weight, classifier_bias }
    }

    /// Scores one pitch value per mel frame, before bias and magnitude. The
    /// frame-major spectrogram becomes a given buffer; the result names the
    /// buffer of the scores.
    pub fn predict(&self, plan: &mut Plan, mel_len: usize, frames: usize) -> (outcome: Result<
        usize,
        String,
    >)
        requires
            old(plan).wf(),
            self.fits(*old(plan)),
            frames * 80 <= usize::MAX,
            f0_fault(mel_len, frames) is None ==> 1536 * frames <= u32::MAX,
        ensures
            final(plan).wf(),
            match outcome {
                Err(message) => f0_fault(mel_len, frames) == Some(message@) && *final(plan) == *old(
                    plan,
                ),
                Ok(output) => {
                    &&& f0_fault(mel_len, frames) is None
                    &&& extends(*old(plan), *final(plan))
                    &&& sized(*final(plan), output, frames as int)
                    &&& final(plan).values()[output as int] == matmul_f16(
                        transpose_f16(
                            f0_stream(
                                self.layers@,
                                *old(plan),
                                transpose_f16(
                                    Term::Given(old(plan).steps().len()),
                                    frames as u32,
                                    80,
                                ),
                                frames as int,
                                5,
                            ),
                            512,
                            frames as u32,
                        ),
                        old(plan).values()[self.classifier_weight as int],
                        frames as u32,
                        1,
                        512,
                    )
                    &&& final(plan).values()[output as int] == self.fundamental(
                        *old(plan),
                        Term::Given(old(plan).steps().len()),
                        frames as int,
                    )
                },
            },
    {
        if frames == 0 {
            return Err("F0 input must not be empty".to_owned());
        }
        if mel_len != frames * 80 {
            return Err(
                "F0 input has ".to_owned().concat(&to_decimal(mel_len as u64)).concat(
                    " values, expected ",
                ).concat(&to_decimal((frames * 80) as u64)),
            );
        }
        let ghost start = *plan;
        let n: u32 = frames as u32;
        let mel: usize = plan.given(mel_len);
        let mut hidden: usize = plan.zeros(mel_len);
        plan.transpose_f16(mel, hidden, n, 80);
        let ghost x = plan.values()[hidden as int];
        for i in 0..5usize
            invariant
                plan.wf(),
                self.fits(start),
                extends(start, *plan),
                start.values().len() <= hidden < plan.values().len(),
                plan.values().len() == start.values().len() + 2 + 4 * i,
                plan.sizes()[hidden as int] == f0_input(i as int) * frames,
                n == frames,
                0 < frames,
                1536 * frames <= u32::MAX,
                plan.values()[hidden as int] == f0_stream(
                    self.layers@,
                    start,
                    x,
                    frames as int,
                    i as nat,
                ),
        {
            let layer = self.layers[i];
            assert(conv_fits(self.layers@[i as int], start));
            proof {
                lemma_mul_le(layer.in_channels as int, layer.kernel as int, 512, 3);
                lemma_mul_le(
                    frames as int,
                    layer.in_channels * layer.kernel,
                    frames as int,
                    1536,
                );
            }
            let convolution: usize = run_conv(
                plan,
                hidden,
                frames,
                &layer,
                1,
                1,
                1,
                Ghost(start),
                Ghost(frames as int),
            );
            let activated: usize = plan.zeros(512 * frames);
            plan.elu_f16(convolution, activated, 512 * n);
            hidden = activated;
        }
        let rows: usize = plan.zeros(frames * 512);
        plan.transpose_f16(hidden, rows, 512, n);
        let output: usize = plan.zeros(frames);
        plan.matmul_f16(rows, self.classifier_weight, output, n, 1, 512);
        Ok(output)
    }
}

/// Input and output channels of upsampling stage `stage`.
pub open spec fn up_input(stage: int) -> int {
    if stage == 0 {
        512
    } else if stage == 1 {
        256
    } else {
        128
    }
}

pub open spec fn up_output(stage: int) -> int {
    if stage == 0 {
        256
    } else if stage == 1 {
        128
    } else {
        64
    }
}

/// Kernel of a source block.
pub open spec fn source_kernel(stage: int) -> int {
    if stage == 2 {
        11
    } else {
        7
    }
}

/// Kernel of the `slot`-th main block of a stage.
pub open spec fn block_kernel(slot: int) -> int {
    if slot == 0 {
        3
    } else if slot == 1 {
        7
    } else {
        11
    }
}

/// The vocoder, as buffers.
pub struct ChatterboxHiFT {
    pub f0: ChatterboxF0Predictor,
    pub source_weight: usize,
    pub source_bias: usize,
    pub conv_pre: Conv1d,
    pub ups: Vec<ConvTranspose1d>,
    pub source_downs: Vec<Conv1d>,
    pub source_resblocks: Vec<HiFTResBlock>,
    pub resblocks: Vec<HiFTResBlock>,
    pub conv_post: Conv1d,
}

/// The tensors of the first `n` upsampling stages.
pub open spec fn ups_tensors(n: nat) -> Seq<Tensor>
    decreases n,
{
    if n == 0 {
        seq![]
    } else {
        let stage = n - 1;
        ups_tensors((n - 1) as nat) + normed_tensors(
            "mel2wav.ups."@ + decimal((n - 1) as nat),
            Absence::NotFound,
            up_input(stage) as usize,
            up_output(stage) as usize,
            up_kernel(stage) as usize,
            up_output(stage) as usize,
        )
    }
}

/// The tensors of the first `n` source branches.
pub open spec fn downs_tensors(n: nat) -> Seq<Tensor>
    decreases n,
{
    if n == 0 {
        seq![]
    } else {
        let stage = n - 1;
        downs_tensors((n - 1) as nat) + plain_tensors(
            "mel2wav.source_downs."@ + decimal((n - 1) as nat),
            18,
            up_output(stage) as usize,
            down_kernel(stage) as usize,
        )
    }
}

/// The tensors of the first `n` source blocks.
pub open spec fn source_blocks_tensors(n: nat) -> Seq<Tensor>
    decreases n,
{
    if n == 0 {
        seq![]
    } else {
        let stage = n - 1;
        source_blocks_tensors((n - 1) as nat) + block_tensors(
            "mel2wav.source_resblocks."@ + decimal((n - 1) as nat),
            up_output(stage) as usize,
            source_kernel(stage) as usize,
            3,
        )
    }
}

/// The tensors of the first `n` main blocks, three per stage.
pub open spec fn blocks_tensors(n: nat) -> Seq<Tensor>
    decreases n,
{
    if n == 0 {
        seq![]
    } else {
        let i = n - 1;
        blocks_tensors((n - 1) as nat) + block_tensors(
            "mel2wav.resblocks."@ + decimal((n - 1) as nat),
            up_output(i / 3) as usize,
            block_kernel(i % 3) as usize,
            3,
        )
    }
}

/// The tensors of the vocoder in loading order.
pub open spec fn hift_tensors() -> Seq<Tensor> {
    f0_tensors() + seq![
        Tensor {
            name: "mel2wav.m_source.l_linear.weight"@,
            shape: seq![1, 9],
            fault: Fault::fixed("invalid HiFT source weight"@).before(1),
            role: Role::Plain,
        },
        Tensor {
            name: "mel2wav.m_source.l_linear.bias"@,
            shape: seq![1],
            fault: Fault::fixed("invalid HiFT source bias"@),
            role: Role::Plain,
        },
    ] + normed_tensors("mel2wav.conv_pre"@, Absence::Unloaded, 512, 80, 7, 512) + ups_tensors(3) + downs_tensors(3)
        + source_blocks_tensors(3) + blocks_tensors(9) + normed_tensors(
        "mel2wav.conv_post"@,
        Absence::Unloaded,
        18,
        64,
        7,
        18,
    )
}

/// Channels, kernel, stride and padding of an upsampling stage.
fn up_geometry(stage: usize) -> (g: (usize, usize, usize, usize, usize))
    requires
        stage < 3,
    ensures
        g.0 == up_input(stage as int),
        g.1 == up_output(stage as int),
        g.2 == up_kernel(stage as int),
        g.3 == up_stride(stage as int),
        g.4 == up_padding(stage as int),
{
    match stage {
        0 => (512, 256, 16, 8, 4),
        1 => (256, 128, 11, 5, 3),
        _ => (128, 64, 7, 3, 2),
    }
}

/// Kernel, stride and padding of a source branch.
fn down_geometry(stage: usize) -> (g: (usize, usize, usize))
    requires
        stage < 3,
    ensures
        g.0 == down_kernel(stage as int),
        g.1 == down_stride(stage as int),
        g.2 == down_padding(stage as int),
{
    match stage {
        0 => (30, 15, 7),
        1 => (6, 3, 1),
        _ => (1, 1, 0),
    }
}

impl ChatterboxHiFT {
    /// The upsampling stage `stage` whose first tensor is buffer `base`.
    pub open spec fn up_at(base: int, stage: int) -> ConvTranspose1d {
        ConvTranspose1d {
            weight: (base + 1) as usize,
            bias: (base + 2) as usize,
            in_channels: up_input(stage) as usize,
            out_channels: up_output(stage) as usize,
            kernel: up_kernel(stage) as usize,
            stride: up_stride(stage) as usize,
            padding: up_padding(stage) as usize,
        }
    }

    /// The vocoder whose first tensor is buffer `base`.
    pub open spec fn is_at(self, base: int) -> bool {
        &&& self.f0.layers@.len() == 5
        &&& forall|i: int|
            0 <= i < 5 ==> #[trigger] self.f0.layers@[i] == conv_at(
                base + 3 * i,
                f0_input(i),
                512,
                3,
            )
        &&& self.f0.classifier_weight == base + 15
        &&& self.f0.classifier_bias == base + 16
        &&& self.source_weight == base + 17
        &&& self.source_bias == base + 18
        &&& self.conv_pre == conv_at(base + 19, 80, 512, 7)
        &&& self.ups@.len() == 3
        &&& forall|i: int|
            0 <= i < 3 ==> #[trigger] self.ups@[i] == Self::up_at(base + 22 + 3 * i, i)
        &&& self.source_downs@.len() == 3
        &&& forall|i: int|
            0 <= i < 3 ==> #[trigger] self.source_downs@[i] == (Conv1d {
                weight: (base + 31 + 2 * i) as usize,
                bias: (base + 32 + 2 * i) as usize,
                in_channels: 18,
                out_channels: up_output(i) as usize,
                kernel: down_kernel(i) as usize,
            })
        &&& self.source_resblocks@.len() == 3
        &&& forall|i: int|
            0 <= i < 3 ==> #[trigger] self.source_resblocks@[i] == (HiFTResBlock {
                first: (base + 37 + 24 * i) as usize,
                channels: up_output(i) as usize,
                kernel: source_kernel(i) as usize,
            })
        &&& self.resblocks@.len() == 9
        &&& forall|i: int|
            0 <= i < 9 ==> #[trigger] self.resblocks@[i] == (HiFTResBlock {
                first: (base + 109 + 24 * i) as usize,
                channels: up_output(i / 3) as usize,
                kernel: block_kernel(i % 3) as usize,
            })
        &&& self.conv_post == conv_at(base + 325, 64, 18, 7)
    }

    /// Requires the weights of the vocoder.
    pub fn load(loader: &mut Loader) -> (model: Self)
        requires
            old(loader).wf(),
        ensures
            final(loader).wf(),
            model.is_at(old(loader).tensors().len() as int),
            final(loader).tensors() == old(loader).tensors() + hift_tensors(),
    {
        let ghost start = loader.tensors();
        let ghost base = start.len() as int;
        let f0 = ChatterboxF0Predictor::load(loader);
        let ghost mark = loader.tensors();
        let source_weight: usize = loader.matrix(
            "mel2wav.m_source.l_linear.weight".to_owned(),
            1,
            9,
            Complaint::fixed("invalid HiFT source weight".to_owned()).before(1),
        );
        let source_bias: usize = loader.vector(
            "mel2wav.m_source.l_linear.bias".to_owned(),
            1,
            Complaint::fixed("invalid HiFT source bias".to_owned()),
        );
        let conv_pre = load_weight_norm_conv(loader, "mel2wav.conv_pre", 80, 512, 7);
        let ghost pre = loader.tensors();
        let mut ups: Vec<ConvTranspose1d> = Vec::new();
        assert(pre + ups_tensors(0) =~= pre);
        for i in 0..3usize
            invariant
                loader.wf(),
                pre.len() == base + 22,
                ups@.len() == i,
                forall|j: int|
                    0 <= j < i ==> #[trigger] ups@[j] == Self::up_at(base + 22 + 3 * j, j),
                loader.tensors() == pre + ups_tensors(i as nat),
                loader.tensors().len() == base + 22 + 3 * i,
        {
            let (input, output, kernel, stride, padding): (usize, usize, usize, usize, usize) =
                up_geometry(i);
            let prefix = "mel2wav.ups.".to_owned().concat(&to_decimal(i as u64));
            proof {
                lemma_small(input as int, output as int, kernel as int);
            }
            let first: usize = load_normed(
                loader,
                prefix.as_str(),
                Absence::NotFound,
                input,
                output,
                kernel,
                output,
            );
            let marker: usize = loader.count();
            ups.push(
                ConvTranspose1d {
                    weight: marker - 2,
                    bias: marker - 1,
                    in_channels: input,
                    out_channels: output,
                    kernel,
                    stride,
                    padding,
                },
            );
            assert(loader.tensors() =~= pre + ups_tensors((i + 1) as nat));
        }
        let ghost after_ups = loader.tensors();
        let mut source_downs: Vec<Conv1d> = Vec::new();
        assert(after_ups + downs_tensors(0) =~= after_ups);
        for i in 0..3usize
            invariant
                loader.wf(),
                after_ups.len() == base + 31,
                source_downs@.len() == i,
                forall|j: int|
                    0 <= j < i ==> #[trigger] source_downs@[j] == (Conv1d {
                        weight: (base + 31 + 2 * j) as usize,
                        bias: (base + 32 + 2 * j) as usize,
                        in_channels: 18,
                        out_channels: up_output(j) as usize,
                        kernel: down_kernel(j) as usize,
                    }),
                loader.tensors() == after_ups + downs_tensors(i as nat),
                loader.tensors().len() == base + 31 + 2 * i,
        {
            let g: (usize, usize, usize, usize, usize) = up_geometry(i);
            let d: (usize, usize, usize) = down_geometry(i);
            let prefix = "mel2wav.source_downs.".to_owned().concat(&to_decimal(i as u64));
            source_downs.push(load_plain_conv(loader, prefix.as_str(), 18, g.1, d.0));
            assert(loader.tensors() =~= after_ups + downs_tensors((i + 1) as nat));
        }
        let ghost after_downs = loader.tensors();
        let mut source_resblocks: Vec<HiFTResBlock> = Vec::new();
        assert(after_downs + source_blocks_tensors(0) =~= after_downs);
        for i in 0..3usize
            invariant
                loader.wf(),
                after_downs.len() == base + 37,
                source_resblocks@.len() == i,
                forall|j: int|
                    0 <= j < i ==> #[trigger] source_resblocks@[j] == (HiFTResBlock {
                        first: (base + 37 + 24 * j) as usize,
                        channels: up_output(j) as usize,
                        kernel: source_kernel(j) as usize,
                    }),
                loader.tensors() == after_downs + source_blocks_tensors(i as nat),
                loader.tensors().len() == base + 37 + 24 * i,
        {
            let g: (usize, usize, usize, usize, usize) = up_geometry(i);
            let kernel: usize = if i == 2 {
                11
            } else {
                7
            };
            let prefix = "mel2wav.source_resblocks.".to_owned().concat(&to_decimal(i as u64));
            source_resblocks.push(HiFTResBlock::load(loader, prefix.as_str(), g.1, kernel));
            assert(loader.tensors() =~= after_downs + source_blocks_tensors((i + 1) as nat));
        }
        let ghost after_sources = loader.tensors();
        let mut resblocks: Vec<HiFTResBlock> = Vec::new();
        assert(after_sources + blocks_tensors(0) =~= after_sources);
        for i in 0..9usize
            invariant
                loader.wf(),
                after_sources.len() == base + 109,
                resblocks@.len() == i,
                forall|j: int|
                    0 <= j < i ==> #[trigger] resblocks@[j] == (HiFTResBlock {
                        first: (base + 109 + 24 * j) as usize,
                        channels: up_output(j / 3) as usize,
                        kernel: block_kernel(j % 3) as usize,
                    }),
                loader.tensors() == after_sources + blocks_tensors(i as nat),
                loader.tensors().len() == base + 109 + 24 * i,
        {
            let g: (usize, usize, usize, usize, usize) = up_geometry(i / 3);
            let kernel: usize = match i % 3 {
                0 => 3,
                1 => 7,
                _ => 11,
            };
            let prefix = "mel2wav.resblocks.".to_owned().concat(&to_decimal(i as u64));
            resblocks.push(HiFTResBlock::load(loader, prefix.as_str(), g.1, kernel));
            assert(loader.tensors() =~= after_sources + blocks_tensors((i + 1) as nat));
        }
        let conv_post = load_weight_norm_conv(loader, "mel2wav.conv_post", 64, 18, 7);
        assert(loader.tensors() =~= start + hift_tensors());
        ChatterboxHiFT {
            f0,
            source_weight,
            source_bias,
            conv_pre,
            ups,
            source_downs,
            source_resblocks,
            resblocks,
            conv_post,
        }
    }
}

/// Frames after stage `stage`, the last one with its reflected frame.
pub open spec fn frames_after(mel_frames: int, stage: int) -> int {
    stage_frames(mel_frames, stage + 1) + (if stage == 2 { 1int } else { 0 })
}

impl ChatterboxHiFT {
    /// The weights exist at their full size, with the geometry of the model.
    pub open spec fn fits(self, plan: Plan) -> bool {
        &&& self.f0.fits(plan)
        &&& conv_fits(self.conv_pre, plan)
        &&& self.conv_pre.in_channels == 80
        &&& self.conv_pre.out_channels == 512
        &&& self.conv_pre.kernel == 7
        &&& self.ups@.len() == 3
        &&& forall|i: int|
            0 <= i < 3 ==> {
                let up = #[trigger] self.ups@[i];
                &&& up.in_channels == up_input(i)
                &&& up.out_channels == up_output(i)
                &&& up.kernel == up_kernel(i)
                &&& up.stride == up_stride(i)
                &&& up.padding == up_padding(i)
                &&& holds(plan, up.weight, up_input(i) * up_output(i) * up_kernel(i))
                &&& holds(plan, up.bias, up_output(i))
            }
        &&& self.source_downs@.len() == 3
        &&& forall|i: int|
            0 <= i < 3 ==> {
                let down = #[trigger] self.source_downs@[i];
                &&& conv_fits(down, plan)
                &&& down.in_channels == 18
                &&& down.out_channels == up_output(i)
                &&& down.kernel == down_kernel(i)
            }
        &&& self.source_resblocks@.len() == 3
        &&& forall|i: int|
            0 <= i < 3 ==> {
                let block = #[trigger] self.source_resblocks@[i];
                &&& block.fits(plan)
                &&& block.channels == up_output(i)
                &&& block.kernel == source_kernel(i)
            }
        &&& self.resblocks@.len() == 9
        &&& forall|i: int|
            0 <= i < 9 ==> {
                let block = #[trigger] self.resblocks@[i];
                &&& block.fits(plan)
                &&& block.channels == up_output(i / 3)
                &&& block.kernel == block_kernel(i % 3)
            }
        &&& conv_fits(self.conv_post, plan)
        &&& self.conv_post.in_channels == 64
        &&& self.conv_post.out_channels == 18
        &&& self.conv_post.kernel == 7
    }

    /// The main branch of a stage: activated, upsampled, and in the last stage
    /// with one reflected frame.
    pub open spec fn main_branch(self, plan: Plan, x: Term, frames: int, stage: int) -> Term {
        let up = self.ups@[stage];
        let n = stage_frames(frames, stage);
        let m = stage_frames(frames, stage + 1);
        let upsampled = conv_transpose1d_general_f16(
            leaky_relu_f16(x, (up_input(stage) * n) as u32, Scalar::Single(SLOPE_01)),
            plan.values()[up.weight as int],
            plan.values()[up.bias as int],
            up_input(stage) as u32,
            up_output(stage) as u32,
            n as u32,
            m as u32,
            up_kernel(stage) as u32,
            up_stride(stage) as u32,
            up_padding(stage) as u32,
        );
        if stage == 2 {
            reflection_pad_left_f16(upsampled, up_output(stage) as u32, m as u32)
        } else {
            upsampled
        }
    }

    /// The source branch of a stage.
    pub open spec fn source_branch(self, plan: Plan, source: Term, frames: int, stage: int) -> Term {
        block_value(
            self.source_resblocks@[stage],
            plan,
            convolved(
                source,
                self.source_downs@[stage],
                plan,
                frames * 120 + 1,
                down_stride(stage),
                down_padding(stage),
                1,
            ),
            frames_after(frames, stage),
            3,
        )
    }

    /// One of the three main blocks of a stage, over a copy of its input.
    pub open spec fn branch(self, plan: Plan, x: Term, frames: int, stage: int, slot: int) -> Term {
        let len = frames_after(frames, stage);
        let n = up_output(stage) * len;
        block_value(
            self.resblocks@[3 * stage + slot],
            plan,
            copy_f16_at(x, Term::Zeros(n as nat), n as u32, 0),
            len,
            3,
        )
    }

    /// A whole stage: main and source branch together, averaged over three
    /// blocks.
    #[verifier::opaque]
    pub open spec fn stage_value(
        self,
        plan: Plan,
        x: Term,
        source: Term,
        frames: int,
        stage: int,
    ) -> Term {
        let n = (up_output(stage) * frames_after(frames, stage)) as u32;
        let fused = add_f16(
            self.main_branch(plan, x, frames, stage),
            self.source_branch(plan, source, frames, stage),
            n,
        );
        third_f16(
            add_f16(
                add_f16(
                    self.branch(plan, fused, frames, stage, 0),
                    self.branch(plan, fused, frames, stage, 1),
                    n,
                ),
                self.branch(plan, fused, frames, stage, 2),
                n,
            ),
            n,
        )
    }

    /// Everything a stage counts is bounded by the number of mel frames.
    proof fn lemma_stage(frames: int, stage: int, kernel: int)
        requires
            0 < frames,
            0 <= stage < 3,
            kernel == 3 || kernel == 7 || kernel == 11,
        ensures
            0 <= up_output(stage) * stage_frames(frames, stage + 1) <= 10_000 * frames,
            0 <= up_output(stage) * frames_after(frames, stage) <= 10_000 * frames,
            frames_after(frames, stage) * (18 * down_kernel(stage)) <= 10_000 * frames,
            frames_after(frames, stage) * (up_output(stage) * kernel) <= 100_000 * frames,
            frames_after(frames, stage) * up_output(stage) <= 10_000 * frames,
    {
        let f = frames_after(frames, stage);
        let c = up_output(stage) * kernel;
        assert(c == 768 || c == 1792 || c == 2816 || c == 384 || c == 896 || c == 1408 || c == 192
            || c == 448 || c == 704);
        if stage == 0 {
            assert(f == 8 * frames);
            assert(18 * down_kernel(stage) == 540);
            assert(f * 540 <= 10_000 * frames);
            assert(f * c <= 100_000 * frames) by (nonlinear_arith)
                requires
                    f == 8 * frames,
                    c <= 2816,
                    frames > 0,
            ;
        } else if stage == 1 {
            assert(f == 40 * frames);
            assert(18 * down_kernel(stage) == 108);
            assert(f * 108 <= 10_000 * frames);
            assert(f * c <= 100_000 * frames) by (nonlinear_arith)
                requires
                    f == 40 * frames,
                    c <= 1408,
                    frames > 0,
            ;
        } else {
            assert(f == 120 * frames + 1);
            assert(18 * down_kernel(stage) == 18);
            assert(f * 18 <= 10_000 * frames);
            assert(f * c <= 100_000 * frames) by (nonlinear_arith)
                requires
                    f == 120 * frames + 1,
                    c <= 704,
                    frames > 0,
            ;
        }
    }

    /// Runs the main branch of a stage. The result names its buffer.
    fn run_main(
        &self,
        plan: &mut Plan,
        hidden: usize,
        frames: usize,
        stage: usize,
        Ghost(start): Ghost<Plan>,
    ) -> (output: usize)
        requires
            old(plan).wf(),
            extends(start, *old(plan)),
            self.fits(start),
            0 < frames,
            20_000 * frames <= u32::MAX,
            stage < 3,
            hidden < old(plan).values().len(),
            old(plan).sizes()[hidden as int] == up_input(stage as int) * stage_frames(
                frames as int,
                stage as int,
            ),
        ensures
            final(plan).wf(),
            extends(*old(plan), *final(plan)),
            final(plan).values().len() <= old(plan).values().len() + 3,
            old(plan).values().len() <= output < final(plan).values().len(),
            final(plan).sizes()[output as int] == up_output(stage as int) * frames_after(
                frames as int,
                stage as int,
            ),
            final(plan).values()[output as int] == self.main_branch(
                start,
                old(plan).values()[hidden as int],
                frames as int,
                stage as int,
            ),
    {
        let up = self.ups[stage];
        let n: usize = frames_for_stage(frames, stage);
        let m: usize = frames_for_stage(frames, stage + 1);
        proof {
            assert(self.ups@[stage as int] == up);
            law_upsampling_matches_the_stages(frames as int, stage as int);
            Self::lemma_stage(frames as int, stage as int, 3);
        }
        let elements: usize = plan.size(hidden);
        let activated: usize = plan.zeros(elements);
        plan.leaky_relu_f16(hidden, activated, elements as u32, Scalar::Single(SLOPE_01));
        let upsampled: usize = plan.zeros(up.out_channels * m);
        plan.conv_transpose1d_general_f16(
            activated,
            up.weight,
            up.bias,
            upsampled,
            up.in_channels as u32,
            up.out_channels as u32,
            n as u32,
            m as u32,
            up.kernel as u32,
            up.stride as u32,
            up.padding as u32,
        );
        if stage == 2 {
            let padded: usize = plan.zeros(up.out_channels * (m + 1));
            plan.reflection_pad_left_f16(upsampled, padded, up.out_channels as u32, m as u32);
            padded
        } else {
            upsampled
        }
    }

    /// Runs the source branch of a stage. The result names its buffer.
    fn run_source(
        &self,
        plan: &mut Plan,
        source: usize,
        frames: usize,
        stage: usize,
        Ghost(start): Ghost<Plan>,
    ) -> (output: usize)
        requires
            old(plan).wf(),
            extends(start, *old(plan)),
            self.fits(start),
            0 < frames,
            20_000 * frames <= u32::MAX,
            100_000 * frames <= usize::MAX,
            stage < 3,
            holds(*old(plan), source, 18 * (120 * frames + 1)),
        ensures
            final(plan).wf(),
            extends(*old(plan), *final(plan)),
            final(plan).values().len() == old(plan).values().len() + 30,
            old(plan).values().len() <= output < final(plan).values().len(),
            final(plan).sizes()[output as int] == up_output(stage as int) * frames_after(
                frames as int,
                stage as int,
            ),
            final(plan).values()[output as int] == self.source_branch(
                start,
                old(plan).values()[source as int],
                frames as int,
                stage as int,
            ),
    {
        let down = self.source_downs[stage];
        let block = self.source_resblocks[stage];
        let (kernel, stride, padding): (usize, usize, usize) = down_geometry(stage);
        let len: usize = if stage == 2 {
            frames * 120 + 1
        } else {
            frames_for_stage(frames, stage + 1)
        };
        proof {
            assert(self.source_downs@[stage as int] == down);
            assert(self.source_resblocks@[stage as int] == block);
            law_source_matches_the_main_branch(frames as int, stage as int);
            Self::lemma_stage(frames as int, stage as int, block.kernel as int);
        }
        let branch: usize = run_conv(
            plan,
            source,
            frames * 120 + 1,
            &down,
            stride,
            padding,
            1,
            Ghost(start),
            Ghost(frames_after(frames as int, stage as int)),
        );
        block.forward(plan, branch, len, Ghost(start))
    }

    /// Runs one of the three main blocks of a stage over a copy of `input`.
    fn run_branch(
        &self,
        plan: &mut Plan,
        input: usize,
        frames: usize,
        stage: usize,
        slot: usize,
        Ghost(start): Ghost<Plan>,
    ) -> (output: usize)
        requires
            old(plan).wf(),
            extends(start, *old(plan)),
            self.fits(start),
            0 < frames,
            20_000 * frames <= u32::MAX,
            100_000 * frames <= usize::MAX,
            stage < 3,
            slot < 3,
            input < old(plan).values().len(),
            old(plan).sizes()[input as int] == up_output(stage as int) * frames_after(
                frames as int,
                stage as int,
            ),
        ensures
            final(plan).wf(),
            extends(*old(plan), *final(plan)),
            final(plan).values().len() == old(plan).values().len() + 28,
            old(plan).values().len() <= output < final(plan).values().len(),
            final(plan).sizes()[output as int] == up_output(stage as int) * frames_after(
                frames as int,
                stage as int,
            ),
            final(plan).values()[output as int] == self.branch(
                start,
                old(plan).values()[input as int],
                frames as int,
                stage as int,
                slot as int,
            ),
    {
        let block = self.resblocks[3 * stage + slot];
        proof {
            assert(self.resblocks@[3 * stage + slot] == block);
            assert((3 * stage + slot) / 3 == stage);
            assert((3 * stage + slot) % 3 == slot);
            Self::lemma_stage(frames as int, stage as int, block.kernel as int);
        }
        let len: usize = if stage == 2 {
            frames * 120 + 1
        } else {
            frames_for_stage(frames, stage + 1)
        };
        let n: usize = plan.size(input);
        let copied: usize = plan.zeros(n);
        plan.copy_f16_at(input, copied, n as u32, 0);
        block.forward(plan, copied, len, Ghost(start))
    }

    /// Runs one stage. The result names the buffer of its output.
    fn run_stage(
        &self,
        plan: &mut Plan,
        hidden: usize,
        source: usize,
        frames: usize,
        stage: usize,
        Ghost(start): Ghost<Plan>,
    ) -> (output: usize)
        requires
            old(plan).wf(),
            extends(start, *old(plan)),
            self.fits(start),
            0 < frames,
            20_000 * frames <= u32::MAX,
            100_000 * frames <= usize::MAX,
            stage < 3,
            holds(*old(plan), source, 18 * (120 * frames + 1)),
            hidden < old(plan).values().len(),
            old(plan).sizes()[hidden as int] == up_input(stage as int) * stage_frames(
                frames as int,
                stage as int,
            ),
        ensures
            final(plan).wf(),
            extends(*old(plan), *final(plan)),
            final(plan).values().len() <= old(plan).values().len() + 120,
            output < final(plan).values().len(),
            final(plan).sizes()[output as int] == up_output(stage as int) * frames_after(
                frames as int,
                stage as int,
            ),
            final(plan).values()[output as int] == self.stage_value(
                start,
                old(plan).values()[hidden as int],
                old(plan).values()[source as int],
                frames as int,
                stage as int,
            ),
    {
        proof {
            reveal(ChatterboxHiFT::stage_value);
        }
        let main: usize = self.run_main(plan, hidden, frames, stage, Ghost(start));
        let branch: usize = self.run_source(plan, source, frames, stage, Ghost(start));
        let n: usize = plan.size(main);
        let fused: usize = plan.zeros(n);
        plan.add_f16(main, branch, fused, n as u32);
        let first: usize = self.run_branch(plan, fused, frames, stage, 0, Ghost(start));
        let second: usize = self.run_branch(plan, fused, frames, stage, 1, Ghost(start));
        let first_two: usize = plan.zeros(n);
        plan.add_f16(first, second, first_two, n as u32);
        let third: usize = self.run_branch(plan, fused, frames, stage, 2, Ghost(start));
        let sum: usize = plan.zeros(n);
        plan.add_f16(first_two, third, sum, n as u32);
        plan.third_f16(sum, n as u32);
        sum
    }

    /// The hidden frames after the first `n` stages.
    pub open spec fn staged(self, plan: Plan, mel: Term, source: Term, frames: int, n: nat) -> Term
        decreases n,
    {
        if n == 0 {
            convolved(
                transpose_f16(mel, frames as u32, 80),
                self.conv_pre,
                plan,
                frames,
                1,
                3,
                1,
            )
        } else {
            self.stage_value(
                plan,
                self.staged(plan, mel, source, frames, (n - 1) as nat),
                source,
                frames,
                n - 1,
            )
        }
    }

    /// The predicted spectrum: nine log magnitudes and nine phases per frame.
    pub open spec fn spectrum(self, plan: Plan, mel: Term, source: Term, frames: int) -> Term {
        let n = frames * 120 + 1;
        convolved(
            leaky_relu_f16(
                self.staged(plan, mel, source, frames, 3),
                (64 * n) as u32,
                Scalar::Single(SLOPE_001),
            ),
            self.conv_post,
            plan,
            n,
            1,
            3,
            1,
        )
    }

    /// Plans the device part of synthesis: from a frame-major spectrogram and
    /// the spectrum of the excitation, which become given buffers in this
    /// order, to the spectrum of the waveform. The result names its buffer.
    pub fn synthesize(
        &self,
        plan: &mut Plan,
        mel_len: usize,
        frames: usize,
        source_len: usize,
    ) -> (outcome: Result<usize, String>)
        requires
            old(plan).wf(),
            self.fits(*old(plan)),
            100_000 * frames <= usize::MAX,
            frames > 0 && mel_len == frames * 80 ==> 20_000 * frames <= u32::MAX,
        ensures
            final(plan).wf(),
            match outcome {
                Err(message) => {
                    &&& *final(plan) == *old(plan)
                    &&& if frames == 0 || mel_len != frames * 80 {
                        message@ == "invalid HiFT mel geometry"@
                    } else {
                        source_len != 18 * (frames * 120 + 1) && message@
                            == "unexpected source STFT geometry"@
                    }
                },
                Ok(output) => {
                    &&& frames > 0
                    &&& mel_len == frames * 80
                    &&& source_len == 18 * (frames * 120 + 1)
                    &&& extends(*old(plan), *final(plan))
                    &&& sized(*final(plan), output, 18 * (frames * 120 + 1))
                    &&& final(plan).values()[output as int] == self.spectrum(
                        *old(plan),
                        Term::Given(old(plan).steps().len()),
                        Term::Given(old(plan).steps().len() + 1),
                        frames as int,
                    )
                },
            },
    {
        if frames == 0 || mel_len != frames * 80 {
            return Err("invalid HiFT mel geometry".to_owned());
        }
        if source_len != 18 * (frames * 120 + 1) {
            return Err("unexpected source STFT geometry".to_owned());
        }
        let ghost start = *plan;
        let mel: usize = plan.given(mel_len);
        let source: usize = plan.given(source_len);
        let mel_channels: usize = plan.zeros(mel_len);
        plan.transpose_f16(mel, mel_channels, frames as u32, 80);
        let pre: usize = run_conv(
            plan,
            mel_channels,
            frames,
            &self.conv_pre,
            1,
            3,
            1,
            Ghost(start),
            Ghost(frames as int),
        );
        let first: usize = self.run_stage(plan, pre, source, frames, 0, Ghost(start));
        let second: usize = self.run_stage(plan, first, source, frames, 1, Ghost(start));
        let third: usize = self.run_stage(plan, second, source, frames, 2, Ghost(start));
        proof {
            reveal_with_fuel(ChatterboxHiFT::staged, 4);
        }
        let n: usize = plan.size(third);
        let activated: usize = plan.zeros(n);
        plan.leaky_relu_f16(third, activated, n as u32, Scalar::Single(SLOPE_001));
        let spectrum: usize = run_conv(
            plan,
            activated,
            frames * 120 + 1,
            &self.conv_post,
            1,
            3,
            1,
            Ghost(start),
            Ghost(frames * 120 + 1),
        );
        Ok(spectrum)
    }
}

} // verus!
