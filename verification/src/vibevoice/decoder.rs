//! The acoustic decoder: latents to samples.
use vstd::prelude::*;
use vstd::string::*;
use crate::catalog::TensorInfo;
use crate::device::{Plan, Scalar, Term, extends, holds};
use crate::resolve::{copy_shape, count_elements, countable_elements, find_last, shape_in};
use crate::text::{bracketed, decimal, to_bracketed, to_decimal};
use crate::vibevoice::config::VibeVoiceConfig;
use crate::weights::{elements, lemma_elements1, lemma_elements2, lemma_elements3, same_shape};

verus! {

/// A causal convolution, as buffers and numbers.
#[derive(Clone, Copy, Debug, PartialEq, Eq, Structural)]
pub struct Conv1d {
    pub weight: usize,
    pub bias: usize,
    pub input_channels: usize,
    pub output_channels: usize,
    pub kernel: usize,
    pub groups: usize,
}

/// A causal transposed convolution, as buffers and numbers.
#[derive(Clone, Copy, Debug, PartialEq, Eq, Structural)]
pub struct ConvTranspose1d {
    pub weight: usize,
    pub bias: usize,
    pub input_channels: usize,
    pub output_channels: usize,
    pub kernel: usize,
    pub stride: usize,
}

/// A block of the decoder, as buffers.
#[derive(Clone, Copy, Debug, PartialEq, Eq, Structural)]
pub struct DecoderBlock {
    pub norm: usize,
    pub mixer: Conv1d,
    pub gamma: usize,
    pub ffn_norm: usize,
    pub ffn_up: usize,
    pub ffn_up_bias: usize,
    pub ffn_down: usize,
    pub ffn_down_bias: usize,
    pub ffn_gamma: usize,
    pub channels: usize,
}

/// A stage of the decoder.
#[derive(Debug)]
pub struct DecoderStage {
    pub upsample: Option<ConvTranspose1d>,
    pub blocks: Vec<DecoderBlock>,
}

/// The decoder.
#[derive(Debug)]
pub struct VibeVoiceAcousticDecoder {
    pub stem: Conv1d,
    pub stages: Vec<DecoderStage>,
    pub head: Conv1d,
    pub ratios: Vec<usize>,
    pub latent_dim: usize,
    /// What keeps normalisation from dividing by zero.
    pub norm_eps: Scalar,
    /// The first buffer of the weights.
    pub first: usize,
    /// The tensors that the buffers are supplied with, from the first on.
    pub names: Vec<String>,
}

/// Buffer `buffer` is supplied with the tensor `name`, where the tensors
/// `names` go to the buffers from `first` on.
pub open spec fn named(names: Seq<String>, first: int, buffer: usize, name: Seq<char>) -> bool {
    first <= buffer < first + names.len() && names[buffer - first]@ == name
}

/// `after` starts with all of `before`.
pub open spec fn grown(before: Seq<String>, after: Seq<String>) -> bool {
    before.len() <= after.len() && forall|i: int|
        0 <= i < before.len() ==> #[trigger] after[i] == before[i]
}

/// Behind `start`, `plan` is supplied with one buffer per name, of the size of
/// the tensor with that name, and does nothing else.
#[verifier::opaque]
pub open spec fn supplied(
    t: Seq<TensorInfo>,
    start: Plan,
    plan: Plan,
    names: Seq<String>,
) -> bool {
    &&& plan.values().len() == start.values().len() + names.len()
    &&& plan.steps().len() == start.steps().len() + names.len()
    &&& forall|i: int|
        0 <= i < names.len() ==> #[trigger] plan.values()[start.values().len() + i] == Term::Given(
            (start.steps().len() + i) as nat,
        )
    &&& forall|i: int|
        0 <= i < names.len() ==> (shape_in(t, (#[trigger] names[i])@) matches Some(shape)
            && plan.sizes()[start.values().len() + i] == elements(shape))
}

/// How many blocks a stage has.
pub open spec fn depth(stage: int) -> int {
    if stage == 0 {
        8
    } else {
        3
    }
}

/// How many channels a stage has.
pub open spec fn width(stage: int) -> int {
    if stage == 0 {
        2048
    } else if stage == 1 {
        1024
    } else if stage == 2 {
        512
    } else if stage == 3 {
        256
    } else if stage == 4 {
        128
    } else if stage == 5 {
        64
    } else {
        32
    }
}

/// How many channels a stage has.
pub(crate) fn stage_width(stage: usize) -> (channels: usize)
    ensures
        channels == width(stage as int),
        0 < channels <= 2048,
{
    match stage {
        0 => 2048,
        1 => 1024,
        2 => 512,
        3 => 256,
        4 => 128,
        5 => 64,
        _ => 32,
    }
}

/// What is wrong with a vector, if anything is.
pub open spec fn vector_fault(t: Seq<TensorInfo>, name: Seq<char>, n: int) -> Option<Seq<char>> {
    match shape_in(t, name) {
        None => Some("tensor not found: "@ + name),
        Some(shape) => if shape == seq![n as usize] {
            None
        } else {
            Some(name + " has shape "@ + bracketed(shape))
        },
    }
}

/// What is wrong with a convolution, if anything is.
pub open spec fn conv_fault(t: Seq<TensorInfo>, prefix: Seq<char>) -> Option<Seq<char>> {
    match shape_in(t, prefix + ".weight"@) {
        None => Some("could not load "@ + (prefix + ".weight"@)),
        Some(shape) => if shape.len() != 3 {
            Some(prefix + ".weight"@ + " is not Conv1d"@)
        } else {
            vector_fault(t, prefix + ".bias"@, shape[0] as int)
        },
    }
}

/// What is wrong with a transposed convolution, if anything is.
pub open spec fn transpose_fault(t: Seq<TensorInfo>, prefix: Seq<char>, stride: usize) -> Option<
    Seq<char>,
> {
    match shape_in(t, prefix + ".weight"@) {
        None => Some("could not load "@ + (prefix + ".weight"@)),
        Some(shape) => if shape.len() != 3 {
            Some(prefix + ".weight"@ + " is not ConvTranspose1d"@)
        } else if vector_fault(t, prefix + ".bias"@, shape[1] as int) is Some {
            vector_fault(t, prefix + ".bias"@, shape[1] as int)
        } else if shape[2] != stride * 2 {
            Some(prefix + ".weight"@ + " has unexpected kernel"@)
        } else {
            None
        },
    }
}

/// The name of the decoder's weights.
pub open spec fn decoder_prefix() -> Seq<char> {
    "model.acoustic_tokenizer.decoder"@
}

/// The name of a block.
pub open spec fn block_prefix(stage: int, block: int) -> Seq<char> {
    decoder_prefix() + ".stages."@ + decimal(stage as nat) + "."@ + decimal(block as nat)
}

/// What is wrong with the inner maps of a block, if anything is.
pub open spec fn ffn_fault(t: Seq<TensorInfo>, prefix: Seq<char>, channels: int) -> Option<Seq<char>> {
    let first = prefix + ".ffn.linear1.weight"@;
    let second = prefix + ".ffn.linear2.weight"@;
    match shape_in(t, first) {
        None => Some("tensor not found: "@ + first),
        Some(a) => match shape_in(t, second) {
            None => Some("tensor not found: "@ + second),
            Some(b) => if a == seq![(channels * 4) as usize, channels as usize] && b == seq![
                channels as usize,
                (channels * 4) as usize,
            ] {
                None
            } else {
                Some(prefix + " FFN geometry is invalid"@)
            },
        },
    }
}

/// The first fault of two.
pub open spec fn either(a: Option<Seq<char>>, b: Option<Seq<char>>) -> Option<Seq<char>> {
    if a is Some {
        a
    } else {
        b
    }
}

/// What is wrong with a block, if anything is.
pub open spec fn block_fault(t: Seq<TensorInfo>, prefix: Seq<char>, channels: int) -> Option<Seq<char>> {
    either(
        ffn_fault(t, prefix, channels),
        either(
            vector_fault(t, prefix + ".norm.weight"@, channels),
            either(
                conv_fault(t, prefix + ".mixer.conv.conv.conv"@),
                either(
                    vector_fault(t, prefix + ".gamma"@, channels),
                    either(
                        vector_fault(t, prefix + ".ffn_norm.weight"@, channels),
                        either(
                            vector_fault(t, prefix + ".ffn.linear1.bias"@, channels * 4),
                            either(
                                vector_fault(t, prefix + ".ffn.linear2.bias"@, channels),
                                vector_fault(t, prefix + ".ffn_gamma"@, channels),
                            ),
                        ),
                    ),
                ),
            ),
        ),
    )
}

/// What is wrong with the first `n` blocks of a stage, if anything is.
pub open spec fn blocks_fault(t: Seq<TensorInfo>, stage: int, n: int) -> Option<Seq<char>>
    decreases n,
{
    if n <= 0 {
        None
    } else {
        either(
            blocks_fault(t, stage, n - 1),
            block_fault(t, block_prefix(stage, n - 1), width(stage)),
        )
    }
}

proof fn lemma_blocks_fault(t: Seq<TensorInfo>, stage: int, m: int, n: int)
    requires
        0 <= m <= n,
        blocks_fault(t, stage, m) is Some,
    ensures
        blocks_fault(t, stage, n) == blocks_fault(t, stage, m),
    decreases n,
{
    if m < n {
        lemma_blocks_fault(t, stage, m, n - 1);
    }
}

/// The name of the upsampling of a stage.
pub open spec fn upsample_prefix(stage: int) -> Seq<char> {
    decoder_prefix() + ".upsample_layers."@ + decimal(stage as nat) + ".0.convtr.convtr"@
}

/// What is wrong with the upsampling of a stage, if anything is.
pub open spec fn upsample_fault(t: Seq<TensorInfo>, ratios: Seq<usize>, stage: int) -> Option<Seq<char>> {
    let prefix = upsample_prefix(stage);
    if stage == 0 {
        None
    } else if transpose_fault(t, prefix, ratios[stage - 1]) is Some {
        transpose_fault(t, prefix, ratios[stage - 1])
    } else {
        match shape_in(t, prefix + ".weight"@) {
            Some(shape) => if shape[0] == width(stage) * 2 && shape[1] == width(stage) {
                None
            } else {
                Some(prefix + " has unexpected channels"@)
            },
            None => None,
        }
    }
}

/// What is wrong with the first `n` stages, if anything is.
pub open spec fn stages_fault(t: Seq<TensorInfo>, ratios: Seq<usize>, n: int) -> Option<Seq<char>>
    decreases n,
{
    if n <= 0 {
        None
    } else {
        either(
            stages_fault(t, ratios, n - 1),
            either(
                upsample_fault(t, ratios, n - 1),
                blocks_fault(t, n - 1, depth(n - 1)),
            ),
        )
    }
}

proof fn lemma_stages_fault(t: Seq<TensorInfo>, ratios: Seq<usize>, m: int, n: int)
    requires
        0 <= m <= n,
        stages_fault(t, ratios, m) is Some,
    ensures
        stages_fault(t, ratios, n) == stages_fault(t, ratios, m),
    decreases n,
{
    if m < n {
        lemma_stages_fault(t, ratios, m, n - 1);
    }
}

/// How many groups a convolution of this shape has: one per channel where each
/// output reads one input.
pub open spec fn groups_of(shape: Seq<usize>) -> int {
    if shape[1] == 1 && shape[0] > 1 {
        shape[0] as int
    } else {
        1
    }
}

/// What is wrong with the first convolution, if anything is.
pub open spec fn stem_fault(t: Seq<TensorInfo>, latent: usize) -> Option<Seq<char>> {
    let prefix = decoder_prefix() + ".upsample_layers.0.0.conv.conv"@;
    if conv_fault(t, prefix) is Some {
        conv_fault(t, prefix)
    } else {
        match shape_in(t, prefix + ".weight"@) {
            Some(shape) => if shape[1] * groups_of(shape) == latent && shape[0] == 2048 {
                None
            } else {
                Some("unexpected VibeVoice decoder stem geometry"@)
            },
            None => None,
        }
    }
}

/// What is wrong with the last convolution, if anything is.
pub open spec fn head_fault(t: Seq<TensorInfo>) -> Option<Seq<char>> {
    let prefix = decoder_prefix() + ".head.conv.conv"@;
    if conv_fault(t, prefix) is Some {
        conv_fault(t, prefix)
    } else {
        match shape_in(t, prefix + ".weight"@) {
            Some(shape) => if shape[1] * groups_of(shape) == 32 && shape[0] == 1 {
                None
            } else {
                Some("unexpected VibeVoice decoder head geometry"@)
            },
            None => None,
        }
    }
}

/// What is wrong with the decoder of a checkpoint, if anything is.
pub open spec fn decoder_fault(t: Seq<TensorInfo>, config: VibeVoiceConfig) -> Option<Seq<char>> {
    let ratios = config.acoustic_tokenizer_config.decoder_ratios@;
    if ratios.len() != 6 {
        Some("VibeVoice decoder expects six upsampling ratios"@)
    } else {
        either(
            stem_fault(t, config.acoustic_vae_dim),
            either(stages_fault(t, ratios, 7), head_fault(t)),
        )
    }
}

impl Conv1d {
    /// The weights exist at their full size.
    pub open spec fn fits(self, plan: Plan) -> bool {
        &&& self.groups > 0
        &&& holds(
            plan,
            self.weight,
            self.output_channels * (self.input_channels as int / self.groups as int) * self.kernel,
        )
        &&& holds(plan, self.bias, self.output_channels as int)
    }

    /// The weights and the widths are those of the convolution `prefix`.
    pub open spec fn is_named(self, t: Seq<TensorInfo>, names: Seq<String>, first: int, prefix: Seq<char>) -> bool {
        &&& shape_in(t, prefix + ".weight"@) matches Some(shape) && self.has_shape(shape)
        &&& named(names, first, self.weight, prefix + ".weight"@)
        &&& named(names, first, self.bias, prefix + ".bias"@)
    }

    /// The convolution has this shape.
    pub open spec fn has_shape(self, shape: Seq<usize>) -> bool {
        &&& shape.len() == 3
        &&& self.output_channels == shape[0]
        &&& self.kernel == shape[2]
        &&& self.groups == groups_of(shape)
        &&& self.input_channels == shape[1] * groups_of(shape)
    }

    /// The numbers of the convolution go to the device.
    pub open spec fn narrow(self) -> bool {
        &&& self.input_channels <= u32::MAX
        &&& self.output_channels <= u32::MAX
        &&& self.kernel <= u32::MAX
        &&& self.groups <= u32::MAX
    }
}

impl ConvTranspose1d {
    /// The weights exist at their full size.
    pub open spec fn fits(self, plan: Plan) -> bool {
        &&& holds(plan, self.weight, self.input_channels * self.output_channels * self.kernel)
        &&& holds(plan, self.bias, self.output_channels as int)
        &&& self.kernel == 2 * self.stride
    }

    /// The weights and the widths are those of the convolution `prefix`.
    pub open spec fn is_named(self, t: Seq<TensorInfo>, names: Seq<String>, first: int, prefix: Seq<char>) -> bool {
        &&& shape_in(t, prefix + ".weight"@) matches Some(shape) && self.input_channels == shape[0]
            && self.output_channels == shape[1]
        &&& named(names, first, self.weight, prefix + ".weight"@)
        &&& named(names, first, self.bias, prefix + ".bias"@)
    }
}

impl DecoderBlock {
    /// The weights exist at their full size.
    pub open spec fn fits(self, plan: Plan) -> bool {
        let c = self.channels as int;
        &&& holds(plan, self.norm, c)
        &&& self.mixer.fits(plan)
        &&& holds(plan, self.gamma, c)
        &&& holds(plan, self.ffn_norm, c)
        &&& holds(plan, self.ffn_up, (4 * c) * c)
        &&& holds(plan, self.ffn_up_bias, 4 * c)
        &&& holds(plan, self.ffn_down, c * (4 * c))
        &&& holds(plan, self.ffn_down_bias, c)
        &&& holds(plan, self.ffn_gamma, c)
    }

    /// The weights are those of the block `prefix`.
    pub open spec fn is_named(self, t: Seq<TensorInfo>, names: Seq<String>, first: int, prefix: Seq<char>) -> bool {
        &&& named(names, first, self.norm, prefix + ".norm.weight"@)
        &&& self.mixer.is_named(t, names, first, prefix + ".mixer.conv.conv.conv"@)
        &&& named(names, first, self.gamma, prefix + ".gamma"@)
        &&& named(names, first, self.ffn_norm, prefix + ".ffn_norm.weight"@)
        &&& named(names, first, self.ffn_up, prefix + ".ffn.linear1.weight"@)
        &&& named(names, first, self.ffn_up_bias, prefix + ".ffn.linear1.bias"@)
        &&& named(names, first, self.ffn_down, prefix + ".ffn.linear2.weight"@)
        &&& named(names, first, self.ffn_down_bias, prefix + ".ffn.linear2.bias"@)
        &&& named(names, first, self.ffn_gamma, prefix + ".ffn_gamma"@)
    }
}

impl DecoderStage {
    /// The stage is stage `i`, and its weights exist at their full size.
    pub open spec fn fits(self, plan: Plan, ratios: Seq<usize>, i: int) -> bool {
        &&& self.upsample is Some <==> i > 0
        &&& self.upsample matches Some(u) ==> u.fits(plan) && u.input_channels == width(i) * 2
            && u.output_channels == width(i) && u.stride == ratios[i - 1]
        &&& self.blocks@.len() == depth(i)
        &&& forall|b: int|
            0 <= b < self.blocks@.len() ==> (#[trigger] self.blocks@[b]).fits(plan)
                && self.blocks@[b].channels == width(i)
    }
}

impl DecoderStage {
    /// The weights are those of stage `i`.
    pub open spec fn is_named(self, t: Seq<TensorInfo>, names: Seq<String>, first: int, i: int) -> bool {
        &&& self.upsample matches Some(u) ==> u.is_named(t, names, first, upsample_prefix(i))
        &&& forall|b: int|
            0 <= b < self.blocks@.len() ==> (#[trigger] self.blocks@[b]).is_named(
                t, names,
                first,
                block_prefix(i, b),
            )
    }
}

impl VibeVoiceAcousticDecoder {
    /// Every buffer is supplied with its own tensor.
    pub open spec fn is_named(self, t: Seq<TensorInfo>) -> bool {
        &&& self.stem.is_named(
            t, self.names@,
            self.first as int,
            decoder_prefix() + ".upsample_layers.0.0.conv.conv"@,
        )
        &&& self.head.is_named(
            t, self.names@,
            self.first as int,
            decoder_prefix() + ".head.conv.conv"@,
        )
        &&& forall|i: int|
            0 <= i < self.stages@.len() ==> (#[trigger] self.stages@[i]).is_named(
                t, self.names@,
                self.first as int,
                i,
            )
    }

    /// The weights exist at their full size, and the stages fit together.
    pub open spec fn fits(self, plan: Plan) -> bool {
        &&& self.ratios@.len() == 6
        &&& self.stem.fits(plan)
        &&& self.stem.input_channels == self.latent_dim
        &&& self.stem.output_channels == 2048
        &&& self.head.fits(plan)
        &&& self.head.input_channels == 32
        &&& self.head.output_channels == 1
        &&& self.stages@.len() == 7
        &&& forall|i: int|
            0 <= i < 7 ==> (#[trigger] self.stages@[i]).fits(plan, self.ratios@, i)
    }
}

/// A tensor that was found: its buffer and its shape.
struct Found {
    buffer: usize,
    shape: Vec<usize>,
}

/// Looks a tensor up and gives it a buffer.
fn take(plan: &mut Plan, names: &mut Vec<String>, t: &[TensorInfo], name: &str, Ghost(start): Ghost<Plan>) -> (found: Option<Found>)
    requires
        old(plan).wf(),
        supplied(t@, start, *old(plan), old(names)@),
        countable_elements(t@),
    ensures
        final(plan).wf(),
        supplied(t@, start, *final(plan), final(names)@),
        grown(old(names)@, final(names)@),
        match found {
            None => shape_in(t@, name@) is None && *final(plan) == *old(plan),
            Some(f) => {
                &&& shape_in(t@, name@) == Some(f.shape@)
                &&& f.buffer == old(plan).values().len()
                &&& named(final(names)@, start.values().len() as int, f.buffer, name@)
                &&& final(plan).values().len() == old(plan).values().len() + 1
                &&& extends(*old(plan), *final(plan))
                &&& final(plan).sizes()[f.buffer as int] == elements(f.shape@)
            },
        },
{
    match find_last(t, name) {
        None => None,
        Some(i) => {
            let shape = copy_shape(&t[i].shape);
            proof {
                assert forall|k: int| 0 <= k <= shape@.len() implies elements(
                    #[trigger] shape@.take(k),
                ) <= usize::MAX by {
                    assert(t@[i as int].shape@.take(k) == shape@.take(k));
                }
            }
            let count: usize = count_elements(&shape);
            let buffer: usize = plan.given(count);
            names.push(name.to_owned());
            proof {
                reveal(supplied);
                assert forall|i: int| 0 <= i < names@.len() implies #[trigger] plan.values()[
                start.values().len() + i] == Term::Given((start.steps().len() + i) as nat) by {
                    if i < names@.len() - 1 {
                        assert(old(plan).values()[start.values().len() + i] == Term::Given(
                            (start.steps().len() + i) as nat,
                        ));
                    }
                }
                assert forall|i: int| 0 <= i < names@.len() implies (shape_in(
                    t@,
                    (#[trigger] names@[i])@,
                ) matches Some(shape) && plan.sizes()[start.values().len() + i] == elements(
                    shape,
                )) by {
                    if i < names@.len() - 1 {
                        assert(names@[i] == old(names)@[i]);
                    }
                }
            }
            Some(Found { buffer, shape })
        },
    }
}

/// Takes a vector.
fn load_vector(plan: &mut Plan, names: &mut Vec<String>, t: &[TensorInfo], name: &str, n: usize, Ghost(start): Ghost<Plan>) -> (outcome: Result<
    usize,
    String,
>)
    requires
        old(plan).wf(),
        supplied(t@, start, *old(plan), old(names)@),
        countable_elements(t@),
    ensures
        final(plan).wf(),
        supplied(t@, start, *final(plan), final(names)@),
        grown(old(names)@, final(names)@),
        extends(*old(plan), *final(plan)),
        match outcome {
            Err(message) => vector_fault(t@, name@, n as int) == Some(message@),
            Ok(buffer) => {
                &&& vector_fault(t@, name@, n as int) is None
                &&& holds(*final(plan), buffer, n as int)
                &&& named(final(names)@, start.values().len() as int, buffer, name@)
            },
        },
{
    match take(plan, names, t, name, Ghost(start)) {
        None => Err("tensor not found: ".to_owned().concat(name)),
        Some(f) => {
            let wanted: Vec<usize> = vec![n];
            assert(wanted@ =~= seq![n]);
            if same_shape(f.shape.as_slice(), wanted.as_slice()) {
                proof {
                    lemma_elements1(n);
                }
                Ok(f.buffer)
            } else {
                Err(name.to_owned().concat(" has shape ").concat(&to_bracketed(f.shape.as_slice())))
            }
        },
    }
}

/// Takes a convolution.
fn load_conv(plan: &mut Plan, names: &mut Vec<String>, t: &[TensorInfo], prefix: &str, Ghost(start): Ghost<Plan>) -> (outcome: Result<Conv1d, String>)
    requires
        old(plan).wf(),
        supplied(t@, start, *old(plan), old(names)@),
        countable_elements(t@),
    ensures
        final(plan).wf(),
        supplied(t@, start, *final(plan), final(names)@),
        grown(old(names)@, final(names)@),
        extends(*old(plan), *final(plan)),
        match outcome {
            Err(message) => conv_fault(t@, prefix@) == Some(message@),
            Ok(conv) => {
                &&& conv_fault(t@, prefix@) is None
                &&& shape_in(t@, prefix@ + ".weight"@) matches Some(shape) && conv.has_shape(shape)
                &&& conv.fits(*final(plan))
                &&& conv.is_named(t@, final(names)@, start.values().len() as int, prefix@)
            },
        },
{
    let name = prefix.to_owned().concat(".weight");
    let bias_name = prefix.to_owned().concat(".bias");
    match take(plan, names, t, name.as_str(), Ghost(start)) {
        None => Err("could not load ".to_owned().concat(name.as_str())),
        Some(f) => {
            if f.shape.len() != 3 {
                return Err(name.concat(" is not Conv1d"));
            }
            let (a, b, c): (usize, usize, usize) = (f.shape[0], f.shape[1], f.shape[2]);
            proof {
                assert(f.shape@ =~= seq![a, b, c]);
                lemma_elements3(a, b, c);
            }
            match load_vector(plan, names, t, bias_name.as_str(), a, Ghost(start)) {
                Err(message) => Err(message),
                Ok(bias) => {
                    let groups: usize = if b == 1 && a > 1 {
                        a
                    } else {
                        1
                    };
                    proof {
                        assert(b * groups == (if b == 1 && a > 1 {
                            a as int
                        } else {
                            b as int
                        })) by (nonlinear_arith)
                            requires
                                groups == (if b == 1 && a > 1 {
                                    a as int
                                } else {
                                    1
                                }),
                        ;
                        vstd::arithmetic::div_mod::lemma_div_multiples_vanish(
                            b as int,
                            groups as int,
                        );
                        assert(groups * b == b * groups) by (nonlinear_arith);
                        assert((b * groups) / (groups as int) == b);
                    }
                    Ok(
                        Conv1d {
                            weight: f.buffer,
                            bias,
                            input_channels: b * groups,
                            output_channels: a,
                            kernel: c,
                            groups,
                        },
                    )
                },
            }
        },
    }
}

/// Takes a transposed convolution.
fn load_conv_transpose(plan: &mut Plan, names: &mut Vec<String>, t: &[TensorInfo], prefix: &str, stride: usize, Ghost(start): Ghost<Plan>) -> (outcome:
    Result<ConvTranspose1d, String>)
    requires
        old(plan).wf(),
        supplied(t@, start, *old(plan), old(names)@),
        countable_elements(t@),
        stride * 2 <= usize::MAX,
    ensures
        final(plan).wf(),
        supplied(t@, start, *final(plan), final(names)@),
        grown(old(names)@, final(names)@),
        extends(*old(plan), *final(plan)),
        match outcome {
            Err(message) => transpose_fault(t@, prefix@, stride) == Some(message@),
            Ok(conv) => {
                &&& transpose_fault(t@, prefix@, stride) is None
                &&& shape_in(t@, prefix@ + ".weight"@) matches Some(shape) && conv.input_channels
                    == shape[0] && conv.output_channels == shape[1]
                &&& conv.stride == stride
                &&& conv.fits(*final(plan))
                &&& conv.is_named(t@, final(names)@, start.values().len() as int, prefix@)
            },
        },
{
    let name = prefix.to_owned().concat(".weight");
    let bias_name = prefix.to_owned().concat(".bias");
    match take(plan, names, t, name.as_str(), Ghost(start)) {
        None => Err("could not load ".to_owned().concat(name.as_str())),
        Some(f) => {
            if f.shape.len() != 3 {
                return Err(name.concat(" is not ConvTranspose1d"));
            }
            let (a, b, c): (usize, usize, usize) = (f.shape[0], f.shape[1], f.shape[2]);
            proof {
                assert(f.shape@ =~= seq![a, b, c]);
                lemma_elements3(a, b, c);
            }
            match load_vector(plan, names, t, bias_name.as_str(), b, Ghost(start)) {
                Err(message) => Err(message),
                Ok(bias) => {
                    if c != stride * 2 {
                        return Err(name.concat(" has unexpected kernel"));
                    }
                    Ok(
                        ConvTranspose1d {
                            weight: f.buffer,
                            bias,
                            input_channels: a,
                            output_channels: b,
                            kernel: c,
                            stride,
                        },
                    )
                },
            }
        },
    }
}

/// Takes the inner maps of a block.
fn load_ffn(plan: &mut Plan, names: &mut Vec<String>, t: &[TensorInfo], prefix: &str, channels: usize, Ghost(start): Ghost<Plan>) -> (outcome: Result<
    (usize, usize),
    String,
>)
    requires
        old(plan).wf(),
        supplied(t@, start, *old(plan), old(names)@),
        countable_elements(t@),
        channels <= 2048,
    ensures
        final(plan).wf(),
        supplied(t@, start, *final(plan), final(names)@),
        grown(old(names)@, final(names)@),
        extends(*old(plan), *final(plan)),
        match outcome {
            Err(message) => ffn_fault(t@, prefix@, channels as int) == Some(message@),
            Ok((up, down)) => {
                let first = start.values().len() as int;
                &&& ffn_fault(t@, prefix@, channels as int) is None
                &&& holds(*final(plan), up, (4 * channels) * channels)
                &&& holds(*final(plan), down, channels * (4 * channels))
                &&& named(final(names)@, first, up, prefix@ + ".ffn.linear1.weight"@)
                &&& named(final(names)@, first, down, prefix@ + ".ffn.linear2.weight"@)
            },
        },
{
    let first = prefix.to_owned().concat(".ffn.linear1.weight");
    let second = prefix.to_owned().concat(".ffn.linear2.weight");
    let up = match take(plan, names, t, first.as_str(), Ghost(start)) {
        None => {
            return Err("tensor not found: ".to_owned().concat(first.as_str()));
        },
        Some(up) => up,
    };
    let down = match take(plan, names, t, second.as_str(), Ghost(start)) {
        None => {
            return Err("tensor not found: ".to_owned().concat(second.as_str()));
        },
        Some(down) => down,
    };
    let wide: Vec<usize> = vec![channels * 4, channels];
    let tall: Vec<usize> = vec![channels, channels * 4];
    proof {
        assert(wide@ =~= seq![(channels * 4) as usize, channels]);
        assert(tall@ =~= seq![channels, (channels * 4) as usize]);
        lemma_elements2((channels * 4) as usize, channels);
        lemma_elements2(channels, (channels * 4) as usize);
    }
    if same_shape(up.shape.as_slice(), wide.as_slice()) && same_shape(
        down.shape.as_slice(),
        tall.as_slice(),
    ) {
        Ok((up.buffer, down.buffer))
    } else {
        Err(prefix.to_owned().concat(" FFN geometry is invalid"))
    }
}

/// Takes a block.
#[verifier::rlimit(60)]
fn load_block(plan: &mut Plan, names: &mut Vec<String>, t: &[TensorInfo], prefix: &str, channels: usize, Ghost(start): Ghost<Plan>) -> (outcome: Result<
    DecoderBlock,
    String,
>)
    requires
        old(plan).wf(),
        supplied(t@, start, *old(plan), old(names)@),
        countable_elements(t@),
        channels <= 2048,
    ensures
        final(plan).wf(),
        supplied(t@, start, *final(plan), final(names)@),
        grown(old(names)@, final(names)@),
        extends(*old(plan), *final(plan)),
        match outcome {
            Err(message) => block_fault(t@, prefix@, channels as int) == Some(message@),
            Ok(block) => {
                &&& block_fault(t@, prefix@, channels as int) is None
                &&& block.fits(*final(plan))
                &&& block.channels == channels
                &&& block.is_named(t@, final(names)@, start.values().len() as int, prefix@)
            },
        },
{
    let (ffn_up, ffn_down) = match load_ffn(plan, names, t, prefix, channels, Ghost(start)) {
        Ok(pair) => pair,
        Err(message) => {
            return Err(message);
        },
    };
    let norm: usize = match load_vector(
        plan,
        names,
        t,
        prefix.to_owned().concat(".norm.weight").as_str(),
        channels,
        Ghost(start),
    ) {
        Ok(buffer) => buffer,
        Err(message) => {
            return Err(message);
        },
    };
    let mixer = match load_conv(
        plan,
        names,
        t,
        prefix.to_owned().concat(".mixer.conv.conv.conv").as_str(),
        Ghost(start),
    ) {
        Ok(conv) => conv,
        Err(message) => {
            return Err(message);
        },
    };
    let gamma: usize = match load_vector(
        plan,
        names,
        t,
        prefix.to_owned().concat(".gamma").as_str(),
        channels,
        Ghost(start),
    ) {
        Ok(buffer) => buffer,
        Err(message) => {
            return Err(message);
        },
    };
    let ffn_norm: usize = match load_vector(
        plan,
        names,
        t,
        prefix.to_owned().concat(".ffn_norm.weight").as_str(),
        channels,
        Ghost(start),
    ) {
        Ok(buffer) => buffer,
        Err(message) => {
            return Err(message);
        },
    };
    let ffn_up_bias: usize = match load_vector(
        plan,
        names,
        t,
        prefix.to_owned().concat(".ffn.linear1.bias").as_str(),
        channels * 4,
        Ghost(start),
    ) {
        Ok(buffer) => buffer,
        Err(message) => {
            return Err(message);
        },
    };
    let ffn_down_bias: usize = match load_vector(
        plan,
        names,
        t,
        prefix.to_owned().concat(".ffn.linear2.bias").as_str(),
        channels,
        Ghost(start),
    ) {
        Ok(buffer) => buffer,
        Err(message) => {
            return Err(message);
        },
    };
    let ffn_gamma: usize = match load_vector(
        plan,
        names,
        t,
        prefix.to_owned().concat(".ffn_gamma").as_str(),
        channels,
        Ghost(start),
    ) {
        Ok(buffer) => buffer,
        Err(message) => {
            return Err(message);
        },
    };
    Ok(
        DecoderBlock {
            norm,
            mixer,
            gamma,
            ffn_norm,
            ffn_up,
            ffn_up_bias,
            ffn_down,
            ffn_down_bias,
            ffn_gamma,
            channels,
        },
    )
}

/// Takes the upsampling of a stage.
fn load_upsample(plan: &mut Plan, names: &mut Vec<String>, t: &[TensorInfo], ratios: &Vec<usize>, stage: usize, Ghost(start): Ghost<Plan>) -> (outcome:
    Result<Option<ConvTranspose1d>, String>)
    requires
        old(plan).wf(),
        supplied(t@, start, *old(plan), old(names)@),
        countable_elements(t@),
        ratios@.len() == 6,
        stage < 7,
        forall|i: int| 0 <= i < 6 ==> #[trigger] ratios@[i] * 2 <= usize::MAX,
    ensures
        final(plan).wf(),
        supplied(t@, start, *final(plan), final(names)@),
        grown(old(names)@, final(names)@),
        extends(*old(plan), *final(plan)),
        match outcome {
            Err(message) => upsample_fault(t@, ratios@, stage as int) == Some(message@),
            Ok(found) => {
                &&& upsample_fault(t@, ratios@, stage as int) is None
                &&& found is Some <==> stage > 0
                &&& found matches Some(u) ==> u.fits(*final(plan)) && u.input_channels == width(
                    stage as int,
                ) * 2 && u.output_channels == width(stage as int) && u.stride == ratios@[stage - 1]
                    && u.is_named(
                    t@, final(names)@,
                    start.values().len() as int,
                    upsample_prefix(stage as int),
                )
            },
        },
{
    if stage == 0 {
        return Ok(None);
    }
    let prefix = "model.acoustic_tokenizer.decoder".to_owned().concat(".upsample_layers.").concat(
        &to_decimal(stage as u64),
    ).concat(".0.convtr.convtr");
    let channels: usize = stage_width(stage);
    assert(ratios@[stage - 1] * 2 <= usize::MAX);
    match load_conv_transpose(plan, names, t, prefix.as_str(), ratios[stage - 1], Ghost(start)) {
        Err(message) => Err(message),
        Ok(conv) => {
            if conv.input_channels == channels * 2 && conv.output_channels == channels {
                Ok(Some(conv))
            } else {
                Err(prefix.concat(" has unexpected channels"))
            }
        },
    }
}

/// Takes a stage.
fn load_stage(plan: &mut Plan, names: &mut Vec<String>, t: &[TensorInfo], ratios: &Vec<usize>, stage: usize, Ghost(start): Ghost<Plan>) -> (outcome: Result<
    DecoderStage,
    String,
>)
    requires
        old(plan).wf(),
        supplied(t@, start, *old(plan), old(names)@),
        countable_elements(t@),
        ratios@.len() == 6,
        stage < 7,
        forall|i: int| 0 <= i < 6 ==> #[trigger] ratios@[i] * 2 <= usize::MAX,
    ensures
        final(plan).wf(),
        supplied(t@, start, *final(plan), final(names)@),
        grown(old(names)@, final(names)@),
        extends(*old(plan), *final(plan)),
        match outcome {
            Err(message) => either(
                upsample_fault(t@, ratios@, stage as int),
                blocks_fault(t@, stage as int, depth(stage as int)),
            ) == Some(message@),
            Ok(found) => {
                &&& either(
                    upsample_fault(t@, ratios@, stage as int),
                    blocks_fault(t@, stage as int, depth(stage as int)),
                ) is None
                &&& found.fits(*final(plan), ratios@, stage as int)
                &&& found.is_named(
                    t@, final(names)@,
                    start.values().len() as int,
                    stage as int,
                )
            },
        },
{
    let upsample = match load_upsample(plan, names, t, ratios, stage, Ghost(start)) {
        Ok(upsample) => upsample,
        Err(message) => {
            return Err(message);
        },
    };
    let ghost middle = *plan;
    let ghost first = start.values().len() as int;
    let ghost upsampled = names@;
    let count: usize = if stage == 0 {
        8
    } else {
        3
    };
    let channels: usize = stage_width(stage);
    let mut blocks: Vec<DecoderBlock> = Vec::new();
    for b in 0..count
        invariant
            plan.wf(),
            countable_elements(t@),
            extends(*old(plan), middle),
            extends(middle, *plan),
            supplied(t@, start, *plan, names@),
            grown(old(names)@, upsampled),
            grown(upsampled, names@),
            first == start.values().len(),
            forall|j: int|
                0 <= j < b ==> (#[trigger] blocks@[j]).is_named(
                    t@, names@,
                    first,
                    block_prefix(stage as int, j),
                ),
            count == depth(stage as int),
            channels == width(stage as int),
            upsample_fault(t@, ratios@, stage as int) is None,
            blocks_fault(t@, stage as int, b as int) is None,
            blocks@.len() == b,
            forall|j: int|
                0 <= j < b ==> (#[trigger] blocks@[j]).fits(*plan) && blocks@[j].channels
                    == channels,
    {
        let ghost before = *plan;
        let ghost listed = names@;
        let prefix = "model.acoustic_tokenizer.decoder".to_owned().concat(".stages.").concat(
            &to_decimal(stage as u64),
        ).concat(".").concat(&to_decimal(b as u64));
        match load_block(plan, names, t, prefix.as_str(), channels, Ghost(start)) {
            Err(message) => {
                proof {
                    lemma_blocks_fault(t@, stage as int, b + 1, count as int);
                }
                return Err(message);
            },
            Ok(block) => {
                blocks.push(block);
                proof {
                    assert forall|j: int| 0 <= j < b + 1 implies (#[trigger] blocks@[j]).fits(*plan)
                        && blocks@[j].channels == channels by {
                        if j < b {
                            assert(blocks@[j].fits(before));
                        }
                    }
                    assert forall|j: int| 0 <= j < b + 1 implies (#[trigger] blocks@[j]).is_named(
                        t@, names@,
                        first,
                        block_prefix(stage as int, j),
                    ) by {
                        if j < b {
                            assert(blocks@[j].is_named(t@, listed, first, block_prefix(stage as int, j)));
                        }
                    }
                }
            },
        }
    }
    Ok(DecoderStage { upsample, blocks })
}

impl VibeVoiceAcousticDecoder {
    /// Takes the weights of the decoder out of a list of tensors, each as a
    /// given buffer.
    pub fn load(plan: &mut Plan, t: &[TensorInfo], config: &VibeVoiceConfig) -> (outcome: Result<
        Self,
        String,
    >)
        requires
            old(plan).wf(),
            countable_elements(t@),
            forall|i: int|
                0 <= i < config.acoustic_tokenizer_config.decoder_ratios@.len()
                    ==> #[trigger] config.acoustic_tokenizer_config.decoder_ratios@[i] * 2
                    <= usize::MAX,
        ensures
            final(plan).wf(),
            extends(*old(plan), *final(plan)),
            match outcome {
                Err(message) => decoder_fault(t@, *config) == Some(message@),
                Ok(decoder) => {
                    &&& decoder_fault(t@, *config) is None
                    &&& decoder.fits(*final(plan))
                    &&& decoder.first == old(plan).values().len()
                    &&& decoder.is_named(t@)
                    &&& supplied(t@, *old(plan), *final(plan), decoder.names@)
                    &&& decoder.latent_dim == config.acoustic_vae_dim
                    &&& decoder.ratios@ == config.acoustic_tokenizer_config.decoder_ratios@
                    &&& decoder.norm_eps == Scalar::Double(
                        config.acoustic_tokenizer_config.layernorm_eps,
                    )
                },
            },
    {
        let ghost start = *plan;
        let first: usize = plan.count();
        let mut names: Vec<String> = Vec::new();
        proof {
            reveal(supplied);
        }
        let ratios = copy_shape(&config.acoustic_tokenizer_config.decoder_ratios);
        if ratios.len() != 6 {
            return Err("VibeVoice decoder expects six upsampling ratios".to_owned());
        }
        let prefix = "model.acoustic_tokenizer.decoder".to_owned();
        let stem = match load_conv(
            plan,
            &mut names,
            t,
            prefix.clone().concat(".upsample_layers.0.0.conv.conv").as_str(),
            Ghost(start),
        ) {
            Ok(conv) => conv,
            Err(message) => {
                return Err(message);
            },
        };
        if !(stem.input_channels == config.acoustic_vae_dim && stem.output_channels == 2048) {
            return Err("unexpected VibeVoice decoder stem geometry".to_owned());
        }
        let ghost stemmed = *plan;
        let ghost stem_names = names@;
        let mut stages: Vec<DecoderStage> = Vec::new();
        for i in 0..7usize
            invariant
                plan.wf(),
                countable_elements(t@),
                ratios@ == config.acoustic_tokenizer_config.decoder_ratios@,
                ratios@.len() == 6,
                forall|j: int| 0 <= j < 6 ==> #[trigger] ratios@[j] * 2 <= usize::MAX,
                extends(*old(plan), stemmed),
                extends(stemmed, *plan),
                supplied(t@, start, *plan, names@),
                grown(stem_names, names@),
                first == start.values().len(),
                forall|j: int|
                    0 <= j < i ==> (#[trigger] stages@[j]).is_named(t@, names@, first as int, j),
                stem_fault(t@, config.acoustic_vae_dim) is None,
                stages_fault(t@, ratios@, i as int) is None,
                stages@.len() == i,
                forall|j: int| 0 <= j < i ==> (#[trigger] stages@[j]).fits(*plan, ratios@, j),
        {
            let ghost before = *plan;
            let ghost listed = names@;
            match load_stage(plan, &mut names, t, &ratios, i, Ghost(start)) {
                Err(message) => {
                    proof {
                        lemma_stages_fault(t@, ratios@, i + 1, 7);
                    }
                    return Err(message);
                },
                Ok(stage) => {
                    stages.push(stage);
                    proof {
                        assert forall|j: int| 0 <= j < i + 1 implies (#[trigger] stages@[j]).fits(
                            *plan,
                            ratios@,
                            j,
                        ) by {
                            if j < i {
                                lemma_stage_fits(stages@[j], before, *plan, ratios@, j);
                            }
                        }
                        assert forall|j: int| 0 <= j < i + 1 implies (
                        #[trigger] stages@[j]).is_named(t@, names@, first as int, j) by {
                            if j < i {
                                lemma_stage_named(t@, stages@[j], listed, names@, first as int, j);
                            }
                        }
                    }
                },
            }
        }
        let ghost middle = *plan;
        let ghost listed = names@;
        let head = match load_conv(
            plan,
            &mut names,
            t,
            prefix.clone().concat(".head.conv.conv").as_str(),
            Ghost(start),
        ) {
            Ok(conv) => conv,
            Err(message) => {
                return Err(message);
            },
        };
        if !(head.input_channels == 32 && head.output_channels == 1) {
            return Err("unexpected VibeVoice decoder head geometry".to_owned());
        }
        proof {
            assert forall|j: int| 0 <= j < 7 implies (#[trigger] stages@[j]).fits(
                *plan,
                ratios@,
                j,
            ) by {
                lemma_stage_fits(stages@[j], middle, *plan, ratios@, j);
            }
            assert forall|j: int| 0 <= j < stages@.len() implies (#[trigger] stages@[j]).is_named(
                t@, names@,
                first as int,
                j,
            ) by {
                lemma_stage_named(t@, stages@[j], listed, names@, first as int, j);
            }
        }
        Ok(
            VibeVoiceAcousticDecoder {
                stem,
                stages,
                head,
                ratios,
                latent_dim: config.acoustic_vae_dim,
                norm_eps: Scalar::Double(config.acoustic_tokenizer_config.layernorm_eps),
                first,
                names,
            },
        )
    }
}

/// A stage keeps its tensors when others are added.
proof fn lemma_stage_named(
    t: Seq<TensorInfo>,
    stage: DecoderStage,
    a: Seq<String>,
    b: Seq<String>,
    first: int,
    i: int,
)
    requires
        stage.is_named(t, a, first, i),
        grown(a, b),
    ensures
        stage.is_named(t, b, first, i),
{
    assert forall|j: int| 0 <= j < stage.blocks@.len() implies (
    #[trigger] stage.blocks@[j]).is_named(t, b, first, block_prefix(i, j)) by {
        assert(stage.blocks@[j].is_named(t, a, first, block_prefix(i, j)));
    }
}

/// A stage stays where it is when buffers are added.
proof fn lemma_stage_fits(stage: DecoderStage, a: Plan, b: Plan, ratios: Seq<usize>, i: int)
    requires
        stage.fits(a, ratios, i),
        extends(a, b),
    ensures
        stage.fits(b, ratios, i),
{
    assert forall|j: int| 0 <= j < stage.blocks@.len() implies (#[trigger] stage.blocks@[j]).fits(b)
        && stage.blocks@[j].channels == width(i) by {
        assert(stage.blocks@[j].fits(a));
    }
}

} // verus!
