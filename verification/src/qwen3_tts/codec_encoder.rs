//! The codec encoder: waveform samples to sixteen codes per frame.
use vstd::prelude::*;
use vstd::string::*;
use crate::arith::{
    ceil_div, div_up, lemma_ceil_div, lemma_ceil_div_nested, lemma_mul_assoc, lemma_mul_comm, lemma_mul_le,
};
use crate::catalog::TensorInfo;
use crate::device::{EPS_1E5, Plan, Scalar, THETA_10000, Term, extends, holds};
use crate::device::value::{
    add_bias_f16_inplace, add_f16, add_inplace_f32_f16, copy_buffer, copy_f16_to_f32,
    copy_f32_to_f16, elu, gelu_erf_f16, layer_norm_f32in, matmul_f16, mha_fused_scaled,
    mul_f16_broadcast, nearest_codebook, rope_neox, subtract_codebook, transpose_f16,
    unfold_causal_stride,
};
use crate::resolve::{
    Request, Rule, Wanted, ask, countable_elements, first_fault, found, lemma_all_met,     resolve, wanted,
};
use crate::text::{decimal, to_decimal};
use crate::weights::{Role, elements};

verus! {

/// A causal convolution, as buffers; without a bias buffer the bias is zero.
#[derive(Clone, Copy, Debug, PartialEq, Eq, Structural)]
pub struct Conv1d {
    pub weight: usize,
    pub bias: Option<usize>,
    pub in_channels: usize,
    pub out_channels: usize,
    pub kernel_size: usize,
    pub stride: usize,
    pub dilation: usize,
}

/// Two convolutions whose result is added to their input.
#[derive(Clone, Copy, Debug, PartialEq, Eq, Structural)]
pub struct ResidualBlock {
    pub first: Conv1d,
    pub second: Conv1d,
}

/// A residual block and a strided convolution.
#[derive(Clone, Copy, Debug, PartialEq, Eq, Structural)]
pub struct EncoderStage {
    pub residual: ResidualBlock,
    pub downsample: Conv1d,
}

/// One layer of the encoder transformer, as buffers.
#[derive(Clone, Copy, Debug, PartialEq, Eq, Structural)]
pub struct TransformerLayer {
    pub input_norm_weight: usize,
    pub input_norm_bias: usize,
    pub q_proj: usize,
    pub k_proj: usize,
    pub v_proj: usize,
    pub o_proj: usize,
    pub attention_scale: usize,
    pub post_norm_weight: usize,
    pub post_norm_bias: usize,
    pub fc1: usize,
    pub fc2: usize,
    pub mlp_scale: usize,
}

/// A projection and the codebooks that quantise it, one after another.
pub struct Quantizer {
    pub projection: usize,
    pub codebooks: Vec<usize>,
}

/// The codec encoder, as buffers.
pub struct CodecEncoder {
    pub stages: Vec<EncoderStage>,
    pub transformer: Vec<TransformerLayer>,
    pub initial: Conv1d,
    pub final_conv: Conv1d,
    pub downsample: Conv1d,
    pub semantic: Quantizer,
    pub acoustic: Quantizer,
}

/// A tensor whose shape is not checked.
pub open spec fn any(name: Seq<char>) -> Wanted {
    Wanted { name, rule: Rule::Any, role: Role::Plain }
}

/// The weight and the bias of a convolution.
pub open spec fn conv_requests(prefix: Seq<char>) -> Seq<Wanted> {
    seq![
        Wanted { name: prefix + ".weight"@, rule: Rule::Cube, role: Role::Plain },
        Wanted { name: prefix + ".bias"@, rule: Rule::LikePrevious, role: Role::Plain },
    ]
}

/// The tensors of the stage with these layer numbers.
pub open spec fn stage_requests(residual: nat, downsample: nat) -> Seq<Wanted> {
    conv_requests("encoder.encoder.layers."@ + decimal(residual) + ".block.1.conv"@)
        + conv_requests("encoder.encoder.layers."@ + decimal(residual) + ".block.3.conv"@)
        + conv_requests("encoder.encoder.layers."@ + decimal(downsample) + ".conv"@)
}

/// The tensors of the first `n` stages, whose layers are numbered in threes.
pub open spec fn stages_requests(n: nat) -> Seq<Wanted>
    decreases n,
{
    if n == 0 {
        seq![]
    } else {
        stages_requests((n - 1) as nat) + stage_requests((3 * n - 2) as nat, 3 * n)
    }
}

/// The tensors of a transformer layer.
pub open spec fn layer_requests(prefix: Seq<char>) -> Seq<Wanted> {
    seq![
        any(prefix + ".input_layernorm.weight"@),
        any(prefix + ".input_layernorm.bias"@),
        any(prefix + ".self_attn.q_proj.weight"@),
        any(prefix + ".self_attn.k_proj.weight"@),
        any(prefix + ".self_attn.v_proj.weight"@),
        any(prefix + ".self_attn.o_proj.weight"@),
        any(prefix + ".self_attn_layer_scale.scale"@),
        any(prefix + ".post_attention_layernorm.weight"@),
        any(prefix + ".post_attention_layernorm.bias"@),
        any(prefix + ".mlp.fc1.weight"@),
        any(prefix + ".mlp.fc2.weight"@),
        any(prefix + ".mlp_layer_scale.scale"@),
    ]
}

/// The tensors of the first `n` transformer layers.
pub open spec fn layers_requests(n: nat) -> Seq<Wanted>
    decreases n,
{
    if n == 0 {
        seq![]
    } else {
        layers_requests((n - 1) as nat) + layer_requests(
            "encoder.encoder_transformer.layers."@ + decimal((n - 1) as nat),
        )
    }
}

/// The tensors of the first `n` codebooks of a quantizer.
pub open spec fn codebooks_requests(prefix: Seq<char>, n: nat) -> Seq<Wanted>
    decreases n,
{
    if n == 0 {
        seq![]
    } else {
        let codebook = prefix + ".layers."@ + decimal((n - 1) as nat) + ".codebook"@;
        codebooks_requests(prefix, (n - 1) as nat) + seq![
            Wanted {
                name: codebook + ".embed_sum"@,
                rule: Rule::Any,
                role: Role::RowsOverNext(EPS_1E5),
            },
            Wanted {
                name: codebook + ".cluster_usage"@,
                rule: Rule::AfterMatrix(2048, 256),
                role: Role::Plain,
            },
        ]
    }
}

/// The tensors of a quantizer of `n` codebooks.
pub open spec fn quantizer_requests(prefix: Seq<char>, n: nat) -> Seq<Wanted> {
    seq![any(prefix + ".input_proj.weight"@)] + codebooks_requests(prefix, n)
}

/// The tensors of the encoder in loading order.
pub open spec fn encoder_requests() -> Seq<Wanted> {
    stages_requests(4) + layers_requests(8) + conv_requests("encoder.encoder.layers.0.conv"@)
        + conv_requests("encoder.encoder.layers.14.conv"@) + seq![
        Wanted {
            name: "encoder.downsample.conv"@ + ".weight"@,
            rule: Rule::Cube,
            role: Role::Plain,
        },
    ] + quantizer_requests("encoder.quantizer.semantic_residual_vector_quantizer"@, 1)
        + quantizer_requests("encoder.quantizer.acoustic_residual_vector_quantizer"@, 15)
}

/// Adds the requests of a convolution.
fn ask_conv(requests: &mut Vec<Request>, prefix: &str)
    ensures
        wanted(final(requests)@) == wanted(old(requests)@) + conv_requests(prefix@),
{
    ask(requests, prefix.to_owned().concat(".weight"), Rule::Cube, Role::Plain);
    ask(requests, prefix.to_owned().concat(".bias"), Rule::LikePrevious, Role::Plain);
    assert(wanted(requests@) =~= wanted(old(requests)@) + conv_requests(prefix@));
}

/// Adds the requests of the four stages.
fn ask_stages(requests: &mut Vec<Request>)
    ensures
        wanted(final(requests)@) == wanted(old(requests)@) + stages_requests(4),
{
    let ghost start = wanted(requests@);
    assert(start + stages_requests(0) =~= start);
    for i in 1..5usize
        invariant
            wanted(requests@) == start + stages_requests((i - 1) as nat),
    {
        let residual = "encoder.encoder.layers.".to_owned().concat(&to_decimal((3 * i - 2) as u64));
        ask_conv(requests, residual.clone().concat(".block.1.conv").as_str());
        ask_conv(requests, residual.concat(".block.3.conv").as_str());
        let downsample = "encoder.encoder.layers.".to_owned().concat(&to_decimal((3 * i) as u64));
        ask_conv(requests, downsample.concat(".conv").as_str());
        assert(wanted(requests@) =~= start + stages_requests(i as nat));
    }
}

/// Adds the requests of the eight transformer layers.
fn ask_layers(requests: &mut Vec<Request>)
    ensures
        wanted(final(requests)@) == wanted(old(requests)@) + layers_requests(8),
{
    let ghost start = wanted(requests@);
    assert(start + layers_requests(0) =~= start);
    for i in 0..8usize
        invariant
            wanted(requests@) == start + layers_requests(i as nat),
    {
        let prefix = "encoder.encoder_transformer.layers.".to_owned().concat(&to_decimal(i as u64));
        ask(requests, prefix.clone().concat(".input_layernorm.weight"), Rule::Any, Role::Plain);
        ask(requests, prefix.clone().concat(".input_layernorm.bias"), Rule::Any, Role::Plain);
        ask(requests, prefix.clone().concat(".self_attn.q_proj.weight"), Rule::Any, Role::Plain);
        ask(requests, prefix.clone().concat(".self_attn.k_proj.weight"), Rule::Any, Role::Plain);
        ask(requests, prefix.clone().concat(".self_attn.v_proj.weight"), Rule::Any, Role::Plain);
        ask(requests, prefix.clone().concat(".self_attn.o_proj.weight"), Rule::Any, Role::Plain);
        ask(requests, prefix.clone().concat(".self_attn_layer_scale.scale"), Rule::Any, Role::Plain);
        ask(requests, prefix.clone().concat(".post_attention_layernorm.weight"), Rule::Any, Role::Plain);
        ask(requests, prefix.clone().concat(".post_attention_layernorm.bias"), Rule::Any, Role::Plain);
        ask(requests, prefix.clone().concat(".mlp.fc1.weight"), Rule::Any, Role::Plain);
        ask(requests, prefix.clone().concat(".mlp.fc2.weight"), Rule::Any, Role::Plain);
        ask(requests, prefix.clone().concat(".mlp_layer_scale.scale"), Rule::Any, Role::Plain);
        assert(wanted(requests@) =~= start + layers_requests((i + 1) as nat));
    }
}

/// Adds the requests of a quantizer of `n` codebooks.
fn ask_quantizer(requests: &mut Vec<Request>, prefix: &str, n: usize)
    ensures
        wanted(final(requests)@) == wanted(old(requests)@) + quantizer_requests(prefix@, n as nat),
{
    let ghost start = wanted(requests@);
    ask(requests, prefix.to_owned().concat(".input_proj.weight"), Rule::Any, Role::Plain);
    let ghost mid = wanted(requests@);
    assert(mid + codebooks_requests(prefix@, 0) =~= mid);
    for i in 0..n
        invariant
            wanted(requests@) == mid + codebooks_requests(prefix@, i as nat),
    {
        let codebook = prefix.to_owned().concat(".layers.").concat(&to_decimal(i as u64)).concat(
            ".codebook",
        );
        ask(
            requests,
            codebook.clone().concat(".embed_sum"),
            Rule::Any,
            Role::RowsOverNext(EPS_1E5),
        );
        ask(
            requests,
            codebook.concat(".cluster_usage"),
            Rule::AfterMatrix(2048, 256),
            Role::Plain,
        );
        assert(wanted(requests@) =~= mid + codebooks_requests(prefix@, (i + 1) as nat));
    }
    assert(wanted(requests@) =~= start + quantizer_requests(prefix@, n as nat));
}

/// The requests of the encoder in loading order.
pub fn list_requests() -> (requests: Vec<Request>)
    ensures
        wanted(requests@) == encoder_requests(),
        requests@.len() == encoder_requests().len(),
{
    let mut requests: Vec<Request> = Vec::new();
    assert(wanted(requests@) =~= seq![]);
    ask_stages(&mut requests);
    ask_layers(&mut requests);
    ask_conv(&mut requests, "encoder.encoder.layers.0.conv");
    ask_conv(&mut requests, "encoder.encoder.layers.14.conv");
    ask(
        &mut requests,
        "encoder.downsample.conv".to_owned().concat(".weight"),
        Rule::Cube,
        Role::Plain,
    );
    ask_quantizer(&mut requests, "encoder.quantizer.semantic_residual_vector_quantizer", 1);
    ask_quantizer(&mut requests, "encoder.quantizer.acoustic_residual_vector_quantizer", 15);
    assert(wanted(requests@) =~= encoder_requests());
    requests
}

/// The stride of each stage.
pub open spec fn stage_stride(stage: int) -> usize {
    if stage == 3 {
        8
    } else {
        (stage + 4) as usize
    }
}

/// The convolution whose weight is request `i`; its shape gives its channels.
pub open spec fn conv_found(
    tensors: Seq<TensorInfo>,
    base: int,
    i: int,
    has_bias: bool,
    stride: usize,
    dilation: usize,
) -> Conv1d {
    let shape = found(tensors, encoder_requests(), i);
    Conv1d {
        weight: (base + i) as usize,
        bias: if has_bias { Some((base + i + 1) as usize) } else { None },
        in_channels: shape[1],
        out_channels: shape[0],
        kernel_size: shape[2],
        stride,
        dilation,
    }
}

/// The stage whose first tensor is request `6 * stage`.
pub open spec fn stage_found(tensors: Seq<TensorInfo>, base: int, stage: int) -> EncoderStage {
    EncoderStage {
        residual: ResidualBlock {
            first: conv_found(tensors, base, 6 * stage, true, 1, (stage + 1) as usize),
            second: conv_found(tensors, base, 6 * stage + 2, true, 1, 1),
        },
        downsample: conv_found(tensors, base, 6 * stage + 4, true, stage_stride(stage), 1),
    }
}

impl TransformerLayer {
    /// The layer whose first tensor is buffer `base`.
    pub open spec fn at(base: int) -> Self {
        TransformerLayer {
            input_norm_weight: base as usize,
            input_norm_bias: (base + 1) as usize,
            q_proj: (base + 2) as usize,
            k_proj: (base + 3) as usize,
            v_proj: (base + 4) as usize,
            o_proj: (base + 5) as usize,
            attention_scale: (base + 6) as usize,
            post_norm_weight: (base + 7) as usize,
            post_norm_bias: (base + 8) as usize,
            fc1: (base + 9) as usize,
            fc2: (base + 10) as usize,
            mlp_scale: (base + 11) as usize,
        }
    }
}

impl Quantizer {
    /// The quantizer of `n` codebooks whose projection is buffer `base`.
    pub open spec fn is_at(self, base: int, n: int) -> bool {
        &&& self.projection == base
        &&& self.codebooks@.len() == n
        &&& forall|i: int| 0 <= i < n ==> #[trigger] self.codebooks@[i] == base + 1 + 2 * i
    }
}

impl CodecEncoder {
    /// The encoder that the listed tensors make, from buffer `base` on.
    pub open spec fn is_found(self, tensors: Seq<TensorInfo>, base: int) -> bool {
        &&& self.stages@.len() == 4
        &&& forall|i: int|
            0 <= i < 4 ==> #[trigger] self.stages@[i] == stage_found(tensors, base, i)
        &&& self.transformer@.len() == 8
        &&& forall|i: int|
            0 <= i < 8 ==> #[trigger] self.transformer@[i] == TransformerLayer::at(
                base + 24 + 12 * i,
            )
        &&& self.initial == conv_found(tensors, base, 120, true, 1, 1)
        &&& self.final_conv == conv_found(tensors, base, 122, true, 1, 1)
        &&& self.downsample == conv_found(tensors, base, 124, false, 2, 1)
        &&& self.semantic.is_at(base + 125, 1)
        &&& self.acoustic.is_at(base + 128, 15)
    }
}

/// The list of requests has 159 entries, and the convolution weights stand
/// where [`CodecEncoder::is_found`] says.
proof fn lemma_requests()
    ensures
        encoder_requests().len() == 159,
        forall|i: int|
            0 <= i < 24 && i % 2 == 0 ==> (#[trigger] encoder_requests()[i]).rule == Rule::Cube,
        encoder_requests()[120].rule == Rule::Cube,
        encoder_requests()[122].rule == Rule::Cube,
        encoder_requests()[124].rule == Rule::Cube,
{
    reveal_with_fuel(stages_requests, 5);
    let stages = stages_requests(4);
    assert(stages.len() == 24);
    assert forall|i: int| 0 <= i < 24 && i % 2 == 0 implies (#[trigger] stages[i]).rule
        == Rule::Cube by {}
    lemma_layers_len(8);
    lemma_codebooks_len("encoder.quantizer.semantic_residual_vector_quantizer"@, 1);
    lemma_codebooks_len("encoder.quantizer.acoustic_residual_vector_quantizer"@, 15);
    let all = encoder_requests();
    assert(all.len() == 159);
    assert forall|i: int| 0 <= i < 24 && i % 2 == 0 implies (#[trigger] all[i]).rule
        == Rule::Cube by {
        assert(all[i] == stages[i]);
    }
}

proof fn lemma_layers_len(n: nat)
    ensures
        layers_requests(n).len() == 12 * n,
    decreases n,
{
    if n > 0 {
        lemma_layers_len((n - 1) as nat);
    }
}

proof fn lemma_codebooks_len(prefix: Seq<char>, n: nat)
    ensures
        codebooks_requests(prefix, n).len() == 2 * n,
    decreases n,
{
    if n > 0 {
        lemma_codebooks_len(prefix, (n - 1) as nat);
    }
}

/// The convolution whose weight is request `i`.
fn conv_from(
    tensors: &[TensorInfo],
    shapes: &Vec<Vec<usize>>,
    base: usize,
    i: usize,
    has_bias: bool,
    stride: usize,
    dilation: usize,
) -> (conv: Conv1d)
    requires
        shapes@.len() == 159,
        i < 158,
        base + 159 <= usize::MAX,
        first_fault(tensors@, encoder_requests(), 159) is None,
        encoder_requests().len() == 159,
        encoder_requests()[i as int].rule == Rule::Cube,
        forall|j: int|
            0 <= j < 159 ==> (#[trigger] shapes@[j])@ == found(tensors@, encoder_requests(), j),
    ensures
        conv == conv_found(tensors@, base as int, i as int, has_bias, stride, dilation),
{
    proof {
        lemma_all_met(tensors@, encoder_requests(), 159, i as int);
        assert(shapes@[i as int]@ == found(tensors@, encoder_requests(), i as int));
        assert(shapes@[i as int]@.len() == 3);
    }
    Conv1d {
        weight: base + i,
        bias: if has_bias {
            Some(base + i + 1)
        } else {
            None
        },
        in_channels: shapes[i][1],
        out_channels: shapes[i][0],
        kernel_size: shapes[i][2],
        stride,
        dilation,
    }
}

/// The quantizer of `n` codebooks whose projection is buffer `base`.
fn quantizer_from(base: usize, n: usize) -> (quantizer: Quantizer)
    requires
        base + 2 * n + 1 <= usize::MAX,
    ensures
        quantizer.is_at(base as int, n as int),
{
    let mut codebooks: Vec<usize> = Vec::new();
    for i in 0..n
        invariant
            base + 2 * n + 1 <= usize::MAX,
            codebooks@.len() == i,
            forall|j: int| 0 <= j < i ==> #[trigger] codebooks@[j] == base + 1 + 2 * j,
    {
        codebooks.push(base + 1 + 2 * i);
    }
    Quantizer { projection: base, codebooks }
}

impl CodecEncoder {
    /// Looks up the weights of the encoder, giving each a buffer.
    pub fn load(plan: &mut Plan, tensors: &[TensorInfo]) -> (outcome: Result<Self, String>)
        requires
            old(plan).wf(),
            countable_elements(tensors@),
        ensures
            final(plan).wf(),
            extends(*old(plan), *final(plan)),
            match outcome {
                Err(message) => first_fault(tensors@, encoder_requests(), 159) == Some(message@),
                Ok(model) => {
                    &&& first_fault(tensors@, encoder_requests(), 159) is None
                    &&& model.is_found(tensors@, old(plan).values().len() as int)
                    &&& extends(*old(plan), *final(plan))
                    &&& final(plan).values().len() == old(plan).values().len() + 159
                    &&& forall|i: int|
                        0 <= i < 159 ==> #[trigger] final(plan).values()[old(plan).values().len()
                            + i] == Term::Given((old(plan).steps().len() + i) as nat)
                    &&& forall|i: int|
                        0 <= i < 159 ==> #[trigger] final(plan).sizes()[old(plan).values().len()
                            + i] == elements(found(tensors@, encoder_requests(), i))
                },
            },
    {
        proof {
            lemma_requests();
        }
        let requests = list_requests();
        let ghost start = *plan;
        let shapes = match resolve(plan, tensors, &requests) {
            Err(message) => {
                return Err(message);
            },
            Ok(shapes) => shapes,
        };
        let marker: usize = plan.count();
        let base: usize = marker - 159;
        let mut stages: Vec<EncoderStage> = Vec::new();
        for s in 0..4usize
            invariant
                base == start.values().len(),
                base + 159 <= usize::MAX,
                shapes@.len() == 159,
                first_fault(tensors@, encoder_requests(), 159) is None,
                encoder_requests().len() == 159,
                forall|i: int|
                    0 <= i < 24 && i % 2 == 0 ==> (#[trigger] encoder_requests()[i]).rule
                        == Rule::Cube,
                forall|j: int|
                    0 <= j < 159 ==> (#[trigger] shapes@[j])@ == found(
                        tensors@,
                        encoder_requests(),
                        j,
                    ),
                stages@.len() == s,
                forall|j: int|
                    0 <= j < s ==> #[trigger] stages@[j] == stage_found(tensors@, base as int, j),
        {
            let stride: usize = if s == 3 {
                8
            } else {
                s + 4
            };
            proof {
                assert(encoder_requests()[6 * s as int].rule == Rule::Cube);
                assert(encoder_requests()[6 * s + 2].rule == Rule::Cube);
                assert(encoder_requests()[6 * s + 4].rule == Rule::Cube);
            }
            let first = conv_from(tensors, &shapes, base, 6 * s, true, 1, s + 1);
            let second = conv_from(tensors, &shapes, base, 6 * s + 2, true, 1, 1);
            let downsample = conv_from(tensors, &shapes, base, 6 * s + 4, true, stride, 1);
            stages.push(EncoderStage { residual: ResidualBlock { first, second }, downsample });
        }
        let mut transformer: Vec<TransformerLayer> = Vec::new();
        for i in 0..8usize
            invariant
                base + 159 <= usize::MAX,
                transformer@.len() == i,
                forall|j: int|
                    0 <= j < i ==> #[trigger] transformer@[j] == TransformerLayer::at(
                        base + 24 + 12 * j,
                    ),
        {
            let at: usize = base + 24 + 12 * i;
            transformer.push(
                TransformerLayer {
                    input_norm_weight: at,
                    input_norm_bias: at + 1,
                    q_proj: at + 2,
                    k_proj: at + 3,
                    v_proj: at + 4,
                    o_proj: at + 5,
                    attention_scale: at + 6,
                    post_norm_weight: at + 7,
                    post_norm_bias: at + 8,
                    fc1: at + 9,
                    fc2: at + 10,
                    mlp_scale: at + 11,
                },
            );
        }
        let initial = conv_from(tensors, &shapes, base, 120, true, 1, 1);
        let final_conv = conv_from(tensors, &shapes, base, 122, true, 1, 1);
        let downsample = conv_from(tensors, &shapes, base, 124, false, 2, 1);
        let semantic = quantizer_from(base + 125, 1);
        let acoustic = quantizer_from(base + 128, 15);
        Ok(CodecEncoder { stages, transformer, initial, final_conv, downsample, semantic, acoustic })
    }
}

/// What is in a buffer and how long it is, or why there is none.
pub enum Signal {
    Failed(Seq<char>),
    Of { value: Term, size: int },
}

/// The bias of a convolution: zeros where it has none.
pub open spec fn bias_value(conv: Conv1d, plan: Plan) -> Term {
    match conv.bias {
        Some(b) => plan.values()[b as int],
        None => Term::Zeros(conv.out_channels as nat),
    }
}

/// A causal strided convolution of `len` frames.
#[verifier::opaque]
pub open spec fn convolved(x: Term, len: int, conv: Conv1d, plan: Plan) -> Term {
    let out_len = ceil_div(len, conv.stride as int) as u32;
    let width = (conv.in_channels * conv.kernel_size) as u32;
    let out = conv.out_channels as u32;
    let unfolded = unfold_causal_stride(
        x,
        conv.in_channels as u32,
        len as u32,
        out_len,
        conv.kernel_size as u32,
        conv.stride as u32,
        conv.dilation as u32,
    );
    transpose_f16(
        add_bias_f16_inplace(
            matmul_f16(unfolded, plan.values()[conv.weight as int], out_len, out, width),
            bias_value(conv, plan),
            out_len,
            out,
        ),
        out_len,
        out,
    )
}

/// A convolution, or the complaint that its input has the wrong length.
pub open spec fn conv_step(s: Signal, len: int, conv: Conv1d, plan: Plan) -> Signal {
    match s {
        Signal::Failed(_) => s,
        Signal::Of { value, size } => if size != conv.in_channels * len {
            Signal::Failed(
                "codec encoder conv input has "@ + decimal(size as nat) + " values, expected "@
                    + decimal((conv.in_channels * len) as nat),
            )
        } else {
            Signal::Of {
                value: convolved(value, len, conv, plan),
                size: ceil_div(len, conv.stride as int) * conv.out_channels,
            }
        },
    }
}

/// ELU of the whole signal.
pub open spec fn elu_step(s: Signal) -> Signal {
    match s {
        Signal::Failed(_) => s,
        Signal::Of { value, size } => Signal::Of { value: elu(value, size as u32), size },
    }
}

/// Two activated convolutions added to their input.
pub open spec fn residual_step(s: Signal, len: int, block: ResidualBlock, plan: Plan) -> Signal {
    match s {
        Signal::Failed(_) => s,
        Signal::Of { value, size } => {
            let copied = Signal::Of { value: copy_buffer(value, size as usize), size };
            let first = conv_step(elu_step(copied), len, block.first, plan);
            match conv_step(elu_step(first), len, block.second, plan) {
                Signal::Failed(message) => Signal::Failed(message),
                Signal::Of { value: change, .. } => Signal::Of {
                    value: add_f16(value, change, size as u32),
                    size,
                },
            }
        },
    }
}

/// One stage: residual block, ELU, strided convolution.
pub open spec fn stage_step(s: Signal, len: int, stage: EncoderStage, plan: Plan) -> Signal {
    conv_step(elu_step(residual_step(s, len, stage.residual, plan)), len, stage.downsample, plan)
}

/// The number of frames after the first `n` stages.
pub open spec fn frames_after(stages: Seq<EncoderStage>, samples: int, n: nat) -> int
    decreases n,
{
    if n == 0 {
        samples
    } else {
        ceil_div(
            frames_after(stages, samples, (n - 1) as nat),
            stages[n - 1].downsample.stride as int,
        )
    }
}

/// A convolution of at most `limit` frames has its weights and stays within
/// 32-bit counts.
pub open spec fn conv_fits(conv: Conv1d, plan: Plan, limit: int) -> bool {
    &&& holds(plan, conv.weight, conv.out_channels * conv.in_channels * conv.kernel_size)
    &&& conv.bias matches Some(b) ==> holds(plan, b, conv.out_channels as int)
    &&& 0 < conv.stride <= u32::MAX
    &&& conv.dilation <= u32::MAX
    &&& conv.in_channels <= u32::MAX
    &&& conv.out_channels <= u32::MAX
    &&& conv.kernel_size <= u32::MAX
    &&& conv.in_channels * conv.kernel_size <= u32::MAX
    &&& limit <= u32::MAX
    &&& limit * conv.in_channels <= u32::MAX
    &&& limit * (conv.in_channels * conv.kernel_size) <= u32::MAX
    &&& limit * conv.out_channels <= u32::MAX
}

/// Runs a convolution over `len` channel-first frames. The result names the
/// buffer of the channel-first output.
fn run_conv(
    plan: &mut Plan,
    input: usize,
    len: usize,
    conv: &Conv1d,
    Ghost(start): Ghost<Plan>,
    Ghost(limit): Ghost<int>,
) -> (outcome: Result<usize, String>)
    requires
        old(plan).wf(),
        extends(start, *old(plan)),
        input < old(plan).values().len(),
        conv_fits(*conv, start, limit),
        len <= limit,
    ensures
        final(plan).wf(),
        extends(*old(plan), *final(plan)),
        final(plan).values().len() <= old(plan).values().len() + 4,
        match outcome {
            Err(message) => conv_step(
                Signal::Of {
                    value: old(plan).values()[input as int],
                    size: old(plan).sizes()[input as int] as int,
                },
                len as int,
                *conv,
                start,
            ) == Signal::Failed(message@),
            Ok(output) => {
                &&& old(plan).values().len() <= output < final(plan).values().len()
                &&& conv_step(
                    Signal::Of {
                        value: old(plan).values()[input as int],
                        size: old(plan).sizes()[input as int] as int,
                    },
                    len as int,
                    *conv,
                    start,
                ) == (Signal::Of {
                    value: final(plan).values()[output as int],
                    size: final(plan).sizes()[output as int] as int,
                })
            },
        },
{
    proof {
        lemma_mul_le(len as int, conv.in_channels as int, limit, conv.in_channels as int);
        lemma_mul_comm(len as int, conv.in_channels as int);
    }
    if plan.size(input) != conv.in_channels * len {
        return Err(
            "codec encoder conv input has ".to_owned().concat(
                &to_decimal(plan.size(input) as u64),
            ).concat(" values, expected ").concat(&to_decimal((conv.in_channels * len) as u64)),
        );
    }
    let out_len: usize = div_up(len, conv.stride);
    let width: usize = conv.in_channels * conv.kernel_size;
    proof {
        lemma_ceil_div(len as int, conv.stride as int);
        lemma_mul_le(out_len as int, width as int, limit, width as int);
        lemma_mul_le(out_len as int, conv.out_channels as int, limit, conv.out_channels as int);
        lemma_mul_assoc(
            conv.out_channels as int,
            conv.in_channels as int,
            conv.kernel_size as int,
        );
    }
    proof {
        reveal(convolved);
    }
    let unfolded: usize = plan.zeros(out_len * width);
    plan.unfold_causal_stride(
        input,
        unfolded,
        conv.in_channels as u32,
        len as u32,
        out_len as u32,
        conv.kernel_size as u32,
        conv.stride as u32,
        conv.dilation as u32,
    );
    let bias: usize = match conv.bias {
        Some(b) => b,
        None => plan.zeros(conv.out_channels),
    };
    let channel_last: usize = plan.zeros(out_len * conv.out_channels);
    plan.matmul_f16(
        unfolded,
        conv.weight,
        channel_last,
        out_len as u32,
        conv.out_channels as u32,
        width as u32,
    );
    plan.add_bias_f16_inplace(channel_last, bias, out_len as u32, conv.out_channels as u32);
    let channel_first: usize = plan.zeros(out_len * conv.out_channels);
    plan.transpose_f16(channel_last, channel_first, out_len as u32, conv.out_channels as u32);
    Ok(channel_first)
}

/// ELU of a whole buffer, in place.
fn elu_in_place(plan: &mut Plan, buffer: usize)
    requires
        old(plan).wf(),
        buffer < old(plan).values().len(),
        old(plan).sizes()[buffer as int] <= u32::MAX,
    ensures
        final(plan).wf(),
        final(plan).sizes() == old(plan).sizes(),
        final(plan).values() == old(plan).values().update(
            buffer as int,
            elu(
                old(plan).values()[buffer as int],
                old(plan).sizes()[buffer as int] as u32,
            ),
        ),
{
    let n: u32 = plan.size(buffer) as u32;
    plan.elu(buffer, n);
}

/// Runs a residual block over `len` frames. The result names the buffer of
/// the sum.
fn residual(
    plan: &mut Plan,
    input: usize,
    len: usize,
    block: &ResidualBlock,
    Ghost(start): Ghost<Plan>,
    Ghost(limit): Ghost<int>,
) -> (outcome: Result<usize, String>)
    requires
        old(plan).wf(),
        extends(start, *old(plan)),
        start.values().len() <= input < old(plan).values().len(),
        old(plan).sizes()[input as int] <= u32::MAX,
        conv_fits(block.first, start, limit),
        conv_fits(block.second, start, limit),
        block.first.stride == 1,
        block.second.stride == 1,
        block.second.out_channels >= block.first.in_channels,
        len <= limit,
    ensures
        final(plan).wf(),
        extends(*old(plan), *final(plan)),
        final(plan).values().len() <= old(plan).values().len() + 10,
        match outcome {
            Err(message) => residual_step(
                Signal::Of {
                    value: old(plan).values()[input as int],
                    size: old(plan).sizes()[input as int] as int,
                },
                len as int,
                *block,
                start,
            ) == Signal::Failed(message@),
            Ok(output) => {
                &&& old(plan).values().len() <= output < final(plan).values().len()
                &&& final(plan).sizes()[output as int] == old(plan).sizes()[input as int]
                &&& residual_step(
                    Signal::Of {
                        value: old(plan).values()[input as int],
                        size: old(plan).sizes()[input as int] as int,
                    },
                    len as int,
                    *block,
                    start,
                ) == (Signal::Of {
                    value: final(plan).values()[output as int],
                    size: final(plan).sizes()[output as int] as int,
                })
            },
        },
{
    let ghost entry = *plan;
    let n: usize = plan.size(input);
    let hidden: usize = plan.zeros(n);
    plan.copy_buffer(input, hidden, n);
    elu_in_place(plan, hidden);
    let first: usize = match run_conv(plan, hidden, len, &block.first, Ghost(start), Ghost(limit)) {
        Err(message) => {
            return Err(message);
        },
        Ok(first) => first,
    };
    proof {
        lemma_ceil_div(len as int, 1);
        assert(ceil_div(len as int, 1) == len);
        lemma_mul_le(
            len as int,
            block.first.out_channels as int,
            limit,
            block.first.out_channels as int,
        );
    }
    elu_in_place(plan, first);
    let second: usize = match run_conv(plan, first, len, &block.second, Ghost(start), Ghost(limit)) {
        Err(message) => {
            return Err(message);
        },
        Ok(second) => second,
    };
    proof {
        lemma_mul_le(
            len as int,
            block.first.in_channels as int,
            len as int,
            block.second.out_channels as int,
        );
        lemma_mul_comm(len as int, block.first.in_channels as int);
    }
    let output: usize = plan.zeros(n);
    plan.add_f16(input, second, output, n as u32);
    Ok(output)
}

/// Runs one stage over `len` frames. The result names the buffer of its
/// output.
fn run_stage(
    plan: &mut Plan,
    input: usize,
    len: usize,
    stage: &EncoderStage,
    Ghost(start): Ghost<Plan>,
    Ghost(limit): Ghost<int>,
) -> (outcome: Result<usize, String>)
    requires
        old(plan).wf(),
        extends(start, *old(plan)),
        start.values().len() <= input < old(plan).values().len(),
        old(plan).sizes()[input as int] <= u32::MAX,
        conv_fits(stage.residual.first, start, limit),
        conv_fits(stage.residual.second, start, limit),
        conv_fits(stage.downsample, start, limit),
        stage.residual.first.stride == 1,
        stage.residual.second.stride == 1,
        stage.residual.second.out_channels >= stage.residual.first.in_channels,
        len <= limit,
    ensures
        final(plan).wf(),
        extends(*old(plan), *final(plan)),
        final(plan).values().len() <= old(plan).values().len() + 14,
        match outcome {
            Err(message) => stage_step(
                Signal::Of {
                    value: old(plan).values()[input as int],
                    size: old(plan).sizes()[input as int] as int,
                },
                len as int,
                *stage,
                start,
            ) == Signal::Failed(message@),
            Ok(output) => {
                &&& old(plan).values().len() <= output < final(plan).values().len()
                &&& final(plan).sizes()[output as int] <= u32::MAX
                &&& stage_step(
                    Signal::Of {
                        value: old(plan).values()[input as int],
                        size: old(plan).sizes()[input as int] as int,
                    },
                    len as int,
                    *stage,
                    start,
                ) == (Signal::Of {
                    value: final(plan).values()[output as int],
                    size: final(plan).sizes()[output as int] as int,
                })
            },
        },
{
    let summed: usize = match residual(plan, input, len, &stage.residual, Ghost(start), Ghost(limit)) {
        Err(message) => {
            return Err(message);
        },
        Ok(summed) => summed,
    };
    elu_in_place(plan, summed);
    proof {
        lemma_ceil_div(len as int, stage.downsample.stride as int);
        lemma_mul_le(
            ceil_div(len as int, stage.downsample.stride as int),
            stage.downsample.out_channels as int,
            limit,
            stage.downsample.out_channels as int,
        );
    }
    run_conv(plan, summed, len, &stage.downsample, Ghost(start), Ghost(limit))
}

/// Windowed causal attention over `len` frames, scaled and added to the
/// stream.
pub open spec fn encoder_attended(w: TransformerLayer, plan: Plan, x: Term, len: u32) -> Term {
    let v = plan.values();
    let theta = Scalar::Single(THETA_10000);
    let normed = layer_norm_f32in(
        x,
        v[w.input_norm_weight as int],
        v[w.input_norm_bias as int],
        len,
        512,
        Scalar::Single(EPS_1E5),
    );
    let q = rope_neox(matmul_f16(normed, v[w.q_proj as int], len, 512, 512), len, 8, 64, 0, theta);
    let k = rope_neox(matmul_f16(normed, v[w.k_proj as int], len, 512, 512), len, 8, 64, 0, theta);
    let out = mha_fused_scaled(
        q,
        k,
        matmul_f16(normed, v[w.v_proj as int], len, 512, 512),
        64,
        8,
        8,
        len,
        len,
        0,
        250,
        Scalar::InverseSqrt(64),
        Scalar::Single(0),
    );
    add_inplace_f32_f16(
        x,
        mul_f16_broadcast(
            matmul_f16(out, v[w.o_proj as int], len, 512, 512),
            v[w.attention_scale as int],
            (512 * len) as u32,
            512,
        ),
        (512 * len) as u32,
    )
}

/// A GELU network, scaled and added to the stream.
pub open spec fn encoder_fed_forward(w: TransformerLayer, plan: Plan, x: Term, len: u32) -> Term {
    let v = plan.values();
    let normed = layer_norm_f32in(
        x,
        v[w.post_norm_weight as int],
        v[w.post_norm_bias as int],
        len,
        512,
        Scalar::Single(EPS_1E5),
    );
    let activated = gelu_erf_f16(
        matmul_f16(normed, v[w.fc1 as int], len, 2048, 512),
        (2048 * len) as u32,
    );
    add_inplace_f32_f16(
        x,
        mul_f16_broadcast(
            matmul_f16(activated, v[w.fc2 as int], len, 512, 2048),
            v[w.mlp_scale as int],
            (512 * len) as u32,
            512,
        ),
        (512 * len) as u32,
    )
}

/// The stream after the first `n` encoder layers.
pub open spec fn encoder_layers(
    layers: Seq<TransformerLayer>,
    plan: Plan,
    x: Term,
    len: u32,
    n: nat,
) -> Term
    decreases n,
{
    if n == 0 {
        x
    } else {
        encoder_fed_forward(
            layers[n - 1],
            plan,
            encoder_attended(
                layers[n - 1],
                plan,
                encoder_layers(layers, plan, x, len, (n - 1) as nat),
                len,
            ),
            len,
        )
    }
}

/// The ten working buffers of the encoder transformer, from `hidden` on.
pub open spec fn working(plan: Plan, hidden: usize, len: u32) -> bool {
    &&& hidden + 10 <= plan.values().len()
    &&& hidden + 10 <= usize::MAX
    &&& forall|i: int|
        hidden <= i < hidden + 8 ==> 512 * len <= #[trigger] plan.sizes()[i]
    &&& forall|i: int|
        hidden + 8 <= i < hidden + 10 ==> 2048 * len <= #[trigger] plan.sizes()[i]
}

impl TransformerLayer {
    /// The weights exist at their full size.
    pub open spec fn fits(self, plan: Plan) -> bool {
        &&& holds(plan, self.input_norm_weight, 512)
        &&& holds(plan, self.input_norm_bias, 512)
        &&& holds(plan, self.q_proj, 262144)
        &&& holds(plan, self.k_proj, 262144)
        &&& holds(plan, self.v_proj, 262144)
        &&& holds(plan, self.o_proj, 262144)
        &&& holds(plan, self.attention_scale, 512)
        &&& holds(plan, self.post_norm_weight, 512)
        &&& holds(plan, self.post_norm_bias, 512)
        &&& holds(plan, self.fc1, 1048576)
        &&& holds(plan, self.fc2, 1048576)
        &&& holds(plan, self.mlp_scale, 512)
    }

    /// Adds the attention of this layer to the stream in `hidden`.
    fn attend(&self, plan: &mut Plan, hidden: usize, len: u32, Ghost(start): Ghost<Plan>)
        requires
            old(plan).wf(),
            start.values().len() <= hidden,
            self.fits(start),
            extends(start, *old(plan)),
            working(*old(plan), hidden, len),
            2048 * len <= u32::MAX,
        ensures
            final(plan).wf(),
            final(plan).sizes() == old(plan).sizes(),
            final(plan).values().len() == old(plan).values().len(),
            extends(start, *final(plan)),
            final(plan).values()[hidden as int] == encoder_attended(
                *self,
                start,
                old(plan).values()[hidden as int],
                len,
            ),
            forall|i: int|
                0 <= i < old(plan).values().len() && !(hidden <= i < hidden + 10)
                    ==> #[trigger] final(plan).values()[i] == old(plan).values()[i],
    {
        let norm: usize = hidden + 1;
        let q: usize = hidden + 2;
        let k: usize = hidden + 3;
        let v: usize = hidden + 4;
        let attention: usize = hidden + 5;
        let delta: usize = hidden + 6;
        let scaled: usize = hidden + 7;
        let theta = Scalar::Single(THETA_10000);
        plan.layer_norm_f32in(
            hidden,
            self.input_norm_weight,
            self.input_norm_bias,
            norm,
            len,
            512,
            Scalar::Single(EPS_1E5),
        );
        plan.matmul_f16(norm, self.q_proj, q, len, 512, 512);
        plan.matmul_f16(norm, self.k_proj, k, len, 512, 512);
        plan.matmul_f16(norm, self.v_proj, v, len, 512, 512);
        plan.rope_neox(q, len, 8, 64, 0, theta);
        plan.rope_neox(k, len, 8, 64, 0, theta);
        plan.mha_fused_scaled(
            q,
            k,
            v,
            attention,
            64,
            8,
            8,
            len,
            len,
            0,
            250,
            Scalar::InverseSqrt(64),
            Scalar::Single(0),
        );
        plan.matmul_f16(attention, self.o_proj, delta, len, 512, 512);
        plan.mul_f16_broadcast(delta, self.attention_scale, scaled, 512 * len, 512);
        plan.add_inplace_f32_f16(hidden, scaled, 512 * len);
    }

    /// Adds the feed-forward network of this layer to the stream in `hidden`.
    fn feed_forward(&self, plan: &mut Plan, hidden: usize, len: u32, Ghost(start): Ghost<Plan>)
        requires
            old(plan).wf(),
            start.values().len() <= hidden,
            self.fits(start),
            extends(start, *old(plan)),
            working(*old(plan), hidden, len),
            2048 * len <= u32::MAX,
        ensures
            final(plan).wf(),
            final(plan).sizes() == old(plan).sizes(),
            final(plan).values().len() == old(plan).values().len(),
            extends(start, *final(plan)),
            final(plan).values()[hidden as int] == encoder_fed_forward(
                *self,
                start,
                old(plan).values()[hidden as int],
                len,
            ),
            forall|i: int|
                0 <= i < old(plan).values().len() && !(hidden <= i < hidden + 10)
                    ==> #[trigger] final(plan).values()[i] == old(plan).values()[i],
    {
        let norm: usize = hidden + 1;
        let delta: usize = hidden + 6;
        let scaled: usize = hidden + 7;
        let ff: usize = hidden + 8;
        let activated: usize = hidden + 9;
        plan.layer_norm_f32in(
            hidden,
            self.post_norm_weight,
            self.post_norm_bias,
            norm,
            len,
            512,
            Scalar::Single(EPS_1E5),
        );
        plan.matmul_f16(norm, self.fc1, ff, len, 2048, 512);
        plan.gelu_erf_f16(ff, activated, 2048 * len);
        plan.matmul_f16(activated, self.fc2, delta, len, 512, 2048);
        plan.mul_f16_broadcast(delta, self.mlp_scale, scaled, 512 * len, 512);
        plan.add_inplace_f32_f16(hidden, scaled, 512 * len);
    }
}

impl CodecEncoder {
    /// The channel-first frames `x` after the transformer, frame-major.
    pub open spec fn transformed(self, plan: Plan, x: Term, len: u32) -> Term {
        encoder_layers(
            self.transformer@,
            plan,
            copy_f16_to_f32(transpose_f16(x, 512, len), (512 * len) as u32),
            len,
            self.transformer@.len(),
        )
    }

    /// Runs the transformer over `length` channel-first frames. The result
    /// names the buffer of the frame-major stream.
    fn transform(&self, plan: &mut Plan, channel_first: usize, length: usize, Ghost(start): Ghost<
        Plan,
    >) -> (hidden: usize)
        requires
            old(plan).wf(),
            extends(start, *old(plan)),
            holds(*old(plan), channel_first, 512 * length),
            2048 * length <= u32::MAX,
            forall|i: int|
                0 <= i < self.transformer@.len() ==> (#[trigger] self.transformer@[i]).fits(start),
        ensures
            final(plan).wf(),
            extends(*old(plan), *final(plan)),
            final(plan).values().len() == old(plan).values().len() + 11,
            old(plan).values().len() <= hidden < final(plan).values().len(),
            final(plan).sizes()[hidden as int] == 512 * length,
            final(plan).values()[hidden as int] == self.transformed(
                start,
                old(plan).values()[channel_first as int],
                length as u32,
            ),
    {
        let ghost entry_plan = *plan;
        let elements: usize = length * 512;
        let len: u32 = length as u32;
        let channel_last: usize = plan.zeros(elements);
        plan.transpose_f16(channel_first, channel_last, 512, len);
        let hidden: usize = plan.zeros(elements);
        plan.copy_f16_to_f32(channel_last, hidden, 512 * len);
        let norm: usize = plan.zeros(elements);
        let q: usize = plan.zeros(elements);
        let k: usize = plan.zeros(elements);
        let v: usize = plan.zeros(elements);
        let attention: usize = plan.zeros(elements);
        let delta: usize = plan.zeros(elements);
        let scaled: usize = plan.zeros(elements);
        let ff: usize = plan.zeros(length * 2048);
        let activated: usize = plan.zeros(length * 2048);
        let ghost entry = plan.values()[hidden as int];
        let count: usize = self.transformer.len();
        proof {
            plan.lemma_buffers_fit();
        }
        for i in 0..count
            invariant
                plan.wf(),
                count == self.transformer@.len(),
                extends(start, *plan),
                extends(start, entry_plan),
                extends(entry_plan, *plan),
                entry_plan.values().len() < hidden,
                plan.values().len() == entry_plan.values().len() + 11,
                working(*plan, hidden, len),
                2048 * len <= u32::MAX,
                plan.sizes()[hidden as int] == 512 * len,
                forall|j: int|
                    0 <= j < self.transformer@.len() ==> (#[trigger] self.transformer@[j]).fits(
                        start,
                    ),
                plan.values()[hidden as int] == encoder_layers(
                    self.transformer@,
                    start,
                    entry,
                    len,
                    i as nat,
                ),
        {
            let layer = self.transformer[i];
            assert(self.transformer@[i as int].fits(start));
            layer.attend(plan, hidden, len, Ghost(start));
            layer.feed_forward(plan, hidden, len, Ghost(start));
        }
        hidden
    }
}

/// What is left to quantise after the first `n` codebooks.
pub open spec fn remaining_after(books: Seq<Term>, x: Term, frames: u32, n: nat) -> Term
    decreases n,
{
    if n == 0 {
        x
    } else {
        let before = remaining_after(books, x, frames, (n - 1) as nat);
        subtract_codebook(
            before,
            books[n - 1],
            nearest_codebook(before, books[n - 1], frames, 2048, 256),
            frames,
            256,
        )
    }
}

/// The codes of codebook `n`: the rows closest to what is left.
pub open spec fn codes_of(books: Seq<Term>, x: Term, frames: u32, n: int) -> Term {
    nearest_codebook(
        remaining_after(books, x, frames, n as nat),
        books[n],
        frames,
        2048,
        256,
    )
}

impl Quantizer {
    /// The weights exist at their full size.
    pub open spec fn fits(self, plan: Plan) -> bool {
        &&& holds(plan, self.projection, 131072)
        &&& forall|i: int|
            0 <= i < self.codebooks@.len() ==> holds(plan, #[trigger] self.codebooks@[i], 524288)
    }

    /// The values of the codebooks.
    pub open spec fn books(self, plan: Plan) -> Seq<Term> {
        self.codebooks@.map_values(|b: usize| plan.values()[b as int])
    }

    /// The projected embeddings, as the first codebook sees them.
    pub open spec fn projected(self, plan: Plan, embeddings: Term, frames: u32) -> Term {
        copy_buffer(
            matmul_f16(embeddings, plan.values()[self.projection as int], frames, 256, 512),
            (frames * 256) as usize,
        )
    }

    /// Quantises `frames` frame-major embeddings. The results name one buffer
    /// of codes per codebook.
    fn quantize(&self, plan: &mut Plan, embeddings: usize, frames: usize, Ghost(start): Ghost<
        Plan,
    >) -> (result: Vec<usize>)
        requires
            old(plan).wf(),
            extends(start, *old(plan)),
            holds(*old(plan), embeddings, 512 * frames),
            512 * frames <= u32::MAX,
            self.fits(start),
        ensures
            final(plan).wf(),
            extends(*old(plan), *final(plan)),
            final(plan).values().len() == old(plan).values().len() + self.codebooks@.len() + 2,
            result@.len() == self.codebooks@.len(),
            forall|i: int|
                0 <= i < result@.len() ==> (#[trigger] result@[i]) < final(plan).values().len()
                    && final(plan).sizes()[result@[i] as int] == frames
                    && final(plan).values()[result@[i] as int] == codes_of(
                    self.books(start),
                    self.projected(
                        start,
                        old(plan).values()[embeddings as int],
                        frames as u32,
                    ),
                    frames as u32,
                    i,
                ),
    {
        let ghost entry = *plan;
        let ghost base = plan.values().len() as int;
        let ghost books = self.books(start);
        let n: u32 = frames as u32;
        let ghost x = self.projected(start, plan.values()[embeddings as int], n);
        let projected: usize = plan.zeros(frames * 256);
        plan.matmul_f16(embeddings, self.projection, projected, n, 256, 512);
        let residual: usize = plan.zeros(frames * 256);
        plan.copy_buffer(projected, residual, frames * 256);
        let mut result: Vec<usize> = Vec::new();
        let count: usize = self.codebooks.len();
        for i in 0..count
            invariant
                plan.wf(),
                count == self.codebooks@.len(),
                books == self.books(start),
                self.fits(start),
                extends(start, entry),
                extends(entry, *plan),
                base == entry.values().len(),
                residual == base + 1,
                plan.values().len() == base + 2 + i,
                plan.sizes()[residual as int] == frames * 256,
                n == frames,
                512 * frames <= u32::MAX,
                plan.values()[residual as int] == remaining_after(books, x, n, i as nat),
                result@.len() == i,
                forall|j: int|
                    0 <= j < i ==> #[trigger] result@[j] == base + 2 + j
                        && plan.sizes()[result@[j] as int] == frames
                        && plan.values()[result@[j] as int] == codes_of(books, x, n, j),
        {
            let codebook: usize = self.codebooks[i];
            proof {
                assert(holds(start, codebook, 524288));
                assert(books[i as int] == start.values()[codebook as int]);
                assert(plan.values()[codebook as int] == entry.values()[codebook as int]);
            }
            let indices: usize = plan.zeros(frames);
            plan.nearest_codebook(residual, codebook, indices, n, 2048, 256);
            plan.subtract_codebook(residual, codebook, indices, n, 256);
            result.push(indices);
        }
        result
    }
}

/// The codes of a waveform, as buffers of one code per frame.
pub struct EncodedFrames {
    pub frames: usize,
    pub semantic: Vec<usize>,
    pub acoustic: Vec<usize>,
}

impl CodecEncoder {
    /// The weights exist, and `samples` samples can be counted in 32 bits
    /// throughout.
    pub open spec fn fits(self, plan: Plan, samples: int) -> bool {
        &&& conv_fits(self.initial, plan, samples)
        &&& self.initial.stride == 1
        &&& forall|i: int|
            0 <= i < self.stages@.len() ==> {
                let stage = #[trigger] self.stages@[i];
                &&& conv_fits(stage.residual.first, plan, samples)
                &&& conv_fits(stage.residual.second, plan, samples)
                &&& conv_fits(stage.downsample, plan, samples)
                &&& stage.residual.first.stride == 1
                &&& stage.residual.second.stride == 1
                &&& stage.residual.second.out_channels >= stage.residual.first.in_channels
            }
        &&& conv_fits(self.final_conv, plan, samples)
        &&& self.final_conv.stride == 1
        &&& self.final_conv.out_channels >= 512
        &&& forall|i: int|
            0 <= i < self.transformer@.len() ==> (#[trigger] self.transformer@[i]).fits(plan)
        &&& conv_fits(self.downsample, plan, samples)
        &&& self.downsample.stride == 2
        &&& self.downsample.out_channels >= 512
        &&& self.semantic.fits(plan)
        &&& self.acoustic.fits(plan)
        &&& 2048 * samples <= u32::MAX
    }

    /// The signal after the first convolution and `n` stages.
    pub open spec fn staged(self, plan: Plan, x: Term, samples: int, n: nat) -> Signal
        decreases n,
    {
        if n == 0 {
            conv_step(Signal::Of { value: x, size: samples }, samples, self.initial, plan)
        } else {
            stage_step(
                self.staged(plan, x, samples, (n - 1) as nat),
                frames_after(self.stages@, samples, (n - 1) as nat),
                self.stages@[n - 1],
                plan,
            )
        }
    }

    /// The number of frames that the transformer sees.
    pub open spec fn length(self, samples: int) -> int {
        frames_after(self.stages@, samples, self.stages@.len())
    }

    /// The embeddings that are quantised: all stages, the transformer, and a
    /// halving convolution, frame-major.
    pub open spec fn embeddings(self, plan: Plan, x: Term, samples: int) -> Signal {
        let len = self.length(samples);
        let frames = ceil_div(len, 2);
        let convolved = conv_step(
            elu_step(self.staged(plan, x, samples, self.stages@.len())),
            len,
            self.final_conv,
            plan,
        );
        match convolved {
            Signal::Failed(message) => Signal::Failed(message),
            Signal::Of { value, .. } => {
                let stream = copy_f32_to_f16(
                    self.transformed(plan, value, len as u32),
                    (512 * len) as u32,
                );
                let halved = conv_step(
                    Signal::Of {
                        value: transpose_f16(stream, len as u32, 512),
                        size: 512 * len,
                    },
                    len,
                    self.downsample,
                    plan,
                );
                match halved {
                    Signal::Failed(message) => Signal::Failed(message),
                    Signal::Of { value, .. } => Signal::Of {
                        value: transpose_f16(value, 512, frames as u32),
                        size: 512 * frames,
                    },
                }
            },
        }
    }

    /// Runs the convolutional stages over a given buffer of samples.
    fn convolve(&self, plan: &mut Plan, input: usize, samples: usize, Ghost(start): Ghost<Plan>) -> (
    outcome: Result<(usize, usize), String>)
        requires
            old(plan).wf(),
            extends(start, *old(plan)),
            start.values().len() <= input < old(plan).values().len(),
            old(plan).sizes()[input as int] == samples,
            self.fits(start, samples as int),
        ensures
            final(plan).wf(),
            extends(*old(plan), *final(plan)),
            final(plan).values().len() <= old(plan).values().len() + 8 + 14 * self.stages@.len(),
            match outcome {
                Err(message) => conv_step(
                    elu_step(
                        self.staged(
                            start,
                            old(plan).values()[input as int],
                            samples as int,
                            self.stages@.len(),
                        ),
                    ),
                    self.length(samples as int),
                    self.final_conv,
                    start,
                ) == Signal::Failed(message@),
                Ok((output, length)) => {
                    &&& length == self.length(samples as int)
                    &&& length <= samples
                    &&& old(plan).values().len() <= output < final(plan).values().len()
                    &&& final(plan).sizes()[output as int] == length * self.final_conv.out_channels
                    &&& conv_step(
                        elu_step(
                            self.staged(
                                start,
                                old(plan).values()[input as int],
                                samples as int,
                                self.stages@.len(),
                            ),
                        ),
                        length as int,
                        self.final_conv,
                        start,
                    ) == (Signal::Of {
                        value: final(plan).values()[output as int],
                        size: final(plan).sizes()[output as int] as int,
                    })
                },
            },
    {
        let ghost entry = *plan;
        let ghost x = plan.values()[input as int];
        let ghost limit = samples as int;
        let ghost base = plan.values().len() as int;
        let count: usize = self.stages.len();
        let mut length: usize = samples;
        let mut hidden: usize = match run_conv(
            plan,
            input,
            length,
            &self.initial,
            Ghost(start),
            Ghost(limit),
        ) {
            Err(message) => {
                proof {
                    self.lemma_failed(start, x, limit, 0, count as nat, message@);
                }
                return Err(message);
            },
            Ok(hidden) => hidden,
        };
        proof {
            lemma_unit_stride(length as int, self.initial, limit);
        }
        for i in 0..count
            invariant
                plan.wf(),
                count == self.stages@.len(),
                limit == samples,
                entry == *old(plan),
                x == entry.values()[input as int],
                base == entry.values().len(),
                self.fits(start, limit),
                extends(start, entry),
                extends(entry, *plan),
                start.values().len() <= base,
                base <= hidden < plan.values().len(),
                plan.values().len() <= base + 4 + 14 * i,
                plan.sizes()[hidden as int] <= u32::MAX,
                length == frames_after(self.stages@, limit, i as nat),
                0 <= length <= samples,
                self.staged(start, x, limit, i as nat) == (Signal::Of {
                    value: plan.values()[hidden as int],
                    size: plan.sizes()[hidden as int] as int,
                }),
        {
            let stage = self.stages[i];
            assert(self.stages@[i as int] == stage);
            hidden = match run_stage(plan, hidden, length, &stage, Ghost(start), Ghost(limit)) {
                Err(message) => {
                    proof {
                        self.lemma_failed(start, x, limit, (i + 1) as nat, count as nat, message@);
                    }
                    return Err(message);
                },
                Ok(next) => next,
            };
            proof {
                lemma_ceil_div(length as int, stage.downsample.stride as int);
            }
            length = div_up(length, stage.downsample.stride);
        }
        elu_in_place(plan, hidden);
        let output: usize = match run_conv(
            plan,
            hidden,
            length,
            &self.final_conv,
            Ghost(start),
            Ghost(limit),
        ) {
            Err(message) => {
                return Err(message);
            },
            Ok(output) => output,
        };
        proof {
            lemma_unit_stride(length as int, self.final_conv, limit);
        }
        Ok((output, length))
    }

    /// A failure of one stage is the failure of all that follow.
    proof fn lemma_failed(
        self,
        plan: Plan,
        x: Term,
        samples: int,
        n: nat,
        m: nat,
        message: Seq<char>,
    )
        requires
            n <= m,
            self.staged(plan, x, samples, n) == Signal::Failed(message),
        ensures
            self.staged(plan, x, samples, m) == Signal::Failed(message),
        decreases m,
    {
        if n < m {
            self.lemma_failed(plan, x, samples, n, (m - 1) as nat, message);
        }
    }
}

/// A convolution of stride one keeps the number of frames.
proof fn lemma_unit_stride(len: int, conv: Conv1d, limit: int)
    requires
        conv.stride == 1,
        0 <= len <= limit,
        limit * conv.out_channels <= u32::MAX,
    ensures
        ceil_div(len, conv.stride as int) == len,
        len * conv.out_channels <= u32::MAX,
{
    lemma_mul_le(len, conv.out_channels as int, limit, conv.out_channels as int);
}

/// The complaint of an encoding, if there is one.
pub open spec fn encode_fault(
    encoder: CodecEncoder,
    plan: Plan,
    samples: int,
) -> Option<Seq<char>> {
    if samples == 0 {
        Some("reference waveform is empty"@)
    } else {
        match encoder.embeddings(plan, Term::Given(plan.steps().len()), samples) {
            Signal::Failed(message) => Some(message),
            Signal::Of { .. } => None,
        }
    }
}

/// The codes of one quantizer lie in `buffers`, one buffer per codebook.
pub open spec fn coded(
    plan: Plan,
    buffers: Seq<usize>,
    quantizer: Quantizer,
    start: Plan,
    embeddings: Term,
    frames: u32,
) -> bool {
    &&& buffers.len() == quantizer.codebooks@.len()
    &&& forall|i: int|
        0 <= i < buffers.len() ==> (#[trigger] buffers[i]) < plan.values().len()
            && plan.sizes()[buffers[i] as int] == frames && plan.values()[buffers[i] as int]
            == codes_of(
            quantizer.books(start),
            quantizer.projected(start, embeddings, frames),
            frames,
            i,
        )
}

impl CodecEncoder {
    /// Encodes a mono waveform. The samples become a given buffer; the result
    /// names the buffers of codes, one code per frame each.
    pub fn encode(&self, plan: &mut Plan, samples: usize) -> (outcome: Result<EncodedFrames, String>)
        requires
            old(plan).wf(),
            self.fits(*old(plan), samples as int),
        ensures
            final(plan).wf(),
            extends(*old(plan), *final(plan)),
            match outcome {
                Err(message) => encode_fault(*self, *old(plan), samples as int) == Some(message@),
                Ok(encoded) => {
                    let x = Term::Given(old(plan).steps().len());
                    &&& encode_fault(*self, *old(plan), samples as int) is None
                    &&& encoded.frames == ceil_div(self.length(samples as int), 2)
                    &&& self.embeddings(*old(plan), x, samples as int) matches Signal::Of {
                        value,
                        size,
                    } && {
                        &&& coded(
                            *final(plan),
                            encoded.semantic@,
                            self.semantic,
                            *old(plan),
                            value,
                            encoded.frames as u32,
                        )
                        &&& coded(
                            *final(plan),
                            encoded.acoustic@,
                            self.acoustic,
                            *old(plan),
                            value,
                            encoded.frames as u32,
                        )
                    }
                },
            },
    {
        if samples == 0 {
            return Err("reference waveform is empty".to_owned());
        }
        let ghost start = *plan;
        let ghost limit = samples as int;
        let input: usize = plan.given(samples);
        let (hidden, length): (usize, usize) = match self.convolve(plan, input, samples, Ghost(start)) {
            Err(message) => {
                return Err(message);
            },
            Ok(pair) => pair,
        };
        proof {
            lemma_mul_le(512, length as int, self.final_conv.out_channels as int, length as int);
            lemma_mul_comm(length as int, self.final_conv.out_channels as int);
        }
        let stream: usize = self.transform(plan, hidden, length, Ghost(start));
        let len: u32 = length as u32;
        let converted: usize = plan.zeros(length * 512);
        plan.copy_f32_to_f16(stream, converted, 512 * len);
        let channel_first: usize = plan.zeros(length * 512);
        plan.transpose_f16(converted, channel_first, len, 512);
        let downsampled: usize = match run_conv(
            plan,
            channel_first,
            length,
            &self.downsample,
            Ghost(start),
            Ghost(limit),
        ) {
            Err(message) => {
                return Err(message);
            },
            Ok(downsampled) => downsampled,
        };
        let frames: usize = div_up(length, 2);
        proof {
            lemma_ceil_div(length as int, 2);
            lemma_mul_le(512, frames as int, self.downsample.out_channels as int, frames as int);
            lemma_mul_comm(frames as int, self.downsample.out_channels as int);
        }
        let frame_major: usize = plan.zeros(frames * 512);
        plan.transpose_f16(downsampled, frame_major, 512, frames as u32);
        let semantic = self.semantic.quantize(plan, frame_major, frames, Ghost(start));
        let acoustic = self.acoustic.quantize(plan, frame_major, frames, Ghost(start));
        Ok(EncodedFrames { frames, semantic, acoustic })
    }
}

/// Frame `f` of the assembled codes: the semantic code and the fifteen
/// acoustic ones.
pub open spec fn frame_codes(semantic: Seq<i32>, acoustic: Seq<Vec<i32>>, f: int) -> Seq<i32> {
    Seq::new(
        16,
        |g: int|
            if g == 0 {
                semantic[f]
            } else {
                acoustic[g - 1]@[f]
            },
    )
}

/// Puts the codes of each codebook together frame by frame.
pub fn assemble_frames(semantic: &Vec<i32>, acoustic: &Vec<Vec<i32>>, frames: usize) -> (output: Vec<
    Vec<i32>,
>)
    requires
        semantic@.len() == frames,
        acoustic@.len() == 15,
        forall|g: int| 0 <= g < 15 ==> (#[trigger] acoustic@[g])@.len() == frames,
    ensures
        output@.len() == frames,
        forall|f: int|
            0 <= f < frames ==> (#[trigger] output@[f])@ == frame_codes(semantic@, acoustic@, f),
{
    let mut output: Vec<Vec<i32>> = Vec::new();
    for f in 0..frames
        invariant
            semantic@.len() == frames,
            acoustic@.len() == 15,
            forall|g: int| 0 <= g < 15 ==> (#[trigger] acoustic@[g])@.len() == frames,
            output@.len() == f,
            forall|i: int|
                0 <= i < f ==> (#[trigger] output@[i])@ == frame_codes(semantic@, acoustic@, i),
    {
        let mut codes: Vec<i32> = Vec::new();
        codes.push(semantic[f]);
        for g in 0..15usize
            invariant
                f < frames,
                semantic@.len() == frames,
                acoustic@.len() == 15,
                forall|h: int| 0 <= h < 15 ==> (#[trigger] acoustic@[h])@.len() == frames,
                codes@.len() == g + 1,
                codes@[0] == semantic@[f as int],
                forall|h: int| 1 <= h <= g ==> #[trigger] codes@[h] == acoustic@[h - 1]@[f as int],
        {
            assert(acoustic@[g as int]@.len() == frames);
            codes.push(acoustic[g][f]);
        }
        assert(codes@ =~= frame_codes(semantic@, acoustic@, f as int));
        output.push(codes);
    }
    output
}

/// Each stage divides the number of frames by its stride, rounding up, so no
/// stage makes frames out of nothing.
pub proof fn law_frames_never_grow(stages: Seq<EncoderStage>, samples: int, n: nat)
    requires
        n <= stages.len(),
        samples >= 0,
        forall|i: int| 0 <= i < stages.len() ==> (#[trigger] stages[i]).downsample.stride > 0,
    ensures
        0 <= frames_after(stages, samples, n) <= samples,
        samples > 0 ==> frames_after(stages, samples, n) > 0,
    decreases n,
{
    if n > 0 {
        law_frames_never_grow(stages, samples, (n - 1) as nat);
        assert(stages[n - 1].downsample.stride > 0);
        lemma_ceil_div(
            frames_after(stages, samples, (n - 1) as nat),
            stages[n - 1].downsample.stride as int,
        );
    }
}

/// At 24 kHz the loaded encoder makes one frame of codes per 80 milliseconds:
/// one per 1920 samples, the last one padded.
pub proof fn law_one_frame_per_80_milliseconds(
    encoder: CodecEncoder,
    tensors: Seq<TensorInfo>,
    base: int,
    samples: int,
)
    requires
        encoder.is_found(tensors, base),
        samples >= 0,
    ensures
        ceil_div(encoder.length(samples), encoder.downsample.stride as int) == ceil_div(
            samples,
            1920,
        ),
{
    let stages = encoder.stages@;
    assert(stages[0] == stage_found(tensors, base, 0));
    assert(stages[1] == stage_found(tensors, base, 1));
    assert(stages[2] == stage_found(tensors, base, 2));
    assert(stages[3] == stage_found(tensors, base, 3));
    reveal_with_fuel(frames_after, 5);
    lemma_ceil_div_nested(samples, 4, 5);
    lemma_ceil_div_nested(samples, 20, 6);
    lemma_ceil_div_nested(samples, 120, 8);
    lemma_ceil_div_nested(samples, 960, 2);
}

} // verus!
