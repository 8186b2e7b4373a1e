//! The 12-Hz codec: sixteen codebooks, a causal convolution, a transformer
//! and two doubling stages.
use vstd::prelude::*;
use vstd::string::*;
use crate::device::{EPS_1E5, EPS_1E6, Plan, Scalar, THETA_10000, Term, extends, holds, sized};
use crate::device::value::{
    add_bias_f16_inplace, add_f16, add_inplace_f32_f16, conv1d_causal_f16,
    conv_transpose1d_causal_f16, copy_f16_to_f32, copy_f32_to_f16, gather_rows_f16, gelu_erf_f16,
    gemv_dual_f16_out_a, gemv_dual_f16_out_b, gemv_f16, layer_norm_f32in, matmul_f16, mha_fused,
    mul_f16_broadcast, rms_norm_f32in, rope_neox, silu, transpose_f16,
};
use crate::text::{decimal, signed_decimal, to_decimal, to_signed_decimal};
use crate::weights::{
    Absence, Complaint, Fault, Loader, Role, Tensor, lemma_stored1, lemma_stored2, lemma_stored3,
    lemma_stores_split, listed, stores,
};

verus! {

/// Rows of a codebook.
pub const CODEBOOK_SIZE: usize = 2048;

/// Width of a codebook row.
pub const CODEBOOK_DIM: usize = 256;

/// Channels of the codec latent.
pub const LATENT_DIM: usize = 512;

/// Codes of one frame.
pub const QUANTIZERS: usize = 16;

/// 1e-7 in single precision, the least divisor of a codebook row.
pub const LEAST_USAGE: u32 = 0x33d6_bf95;

/// One layer of the codec transformer, as buffers.
#[derive(Clone, Copy, Debug, PartialEq, Eq, Structural)]
pub struct CodecTransformerLayer {
    pub input_norm: usize,
    pub q_proj: usize,
    pub k_proj: usize,
    pub v_proj: usize,
    pub o_proj: usize,
    pub attention_scale: usize,
    pub post_attention_norm: usize,
    pub gate_proj: usize,
    pub up_proj: usize,
    pub down_proj: usize,
    pub mlp_scale: usize,
}

/// The tensors of a [`CodecTransformerLayer`] in loading order.
pub open spec fn codec_transformer_layer_tensors(prefix: Seq<char>) -> Seq<Tensor> {
    seq![
        listed(prefix + ".input_layernorm.weight"@, seq![512]),
        listed(prefix + ".self_attn.q_proj.weight"@, seq![1024, 512]),
        listed(prefix + ".self_attn.k_proj.weight"@, seq![1024, 512]),
        listed(prefix + ".self_attn.v_proj.weight"@, seq![1024, 512]),
        listed(prefix + ".self_attn.o_proj.weight"@, seq![512, 1024]),
        listed(prefix + ".self_attn_layer_scale.scale"@, seq![512]),
        listed(prefix + ".post_attention_layernorm.weight"@, seq![512]),
        listed(prefix + ".mlp.gate_proj.weight"@, seq![1024, 512]),
        listed(prefix + ".mlp.up_proj.weight"@, seq![1024, 512]),
        listed(prefix + ".mlp.down_proj.weight"@, seq![512, 1024]),
        listed(prefix + ".mlp_layer_scale.scale"@, seq![512]),
    ]
}

impl CodecTransformerLayer {
    /// The buffers that start at `base`.
    pub open spec fn at(base: int) -> Self {
        CodecTransformerLayer {
            input_norm: base as usize,
            q_proj: (base + 1) as usize,
            k_proj: (base + 2) as usize,
            v_proj: (base + 3) as usize,
            o_proj: (base + 4) as usize,
            attention_scale: (base + 5) as usize,
            post_attention_norm: (base + 6) as usize,
            gate_proj: (base + 7) as usize,
            up_proj: (base + 8) as usize,
            down_proj: (base + 9) as usize,
            mlp_scale: (base + 10) as usize,
        }
    }

    /// The weights exist at their full size.
    pub open spec fn fits(self, plan: Plan) -> bool {
        &&& holds(plan, self.input_norm, 512)
        &&& holds(plan, self.q_proj, 524288)
        &&& holds(plan, self.k_proj, 524288)
        &&& holds(plan, self.v_proj, 524288)
        &&& holds(plan, self.o_proj, 524288)
        &&& holds(plan, self.attention_scale, 512)
        &&& holds(plan, self.post_attention_norm, 512)
        &&& holds(plan, self.gate_proj, 524288)
        &&& holds(plan, self.up_proj, 524288)
        &&& holds(plan, self.down_proj, 524288)
        &&& holds(plan, self.mlp_scale, 512)
    }

    /// Requires the tensors.
    pub fn load(loader: &mut Loader, prefix: &str) -> (weights: Self)
        requires
            old(loader).wf(),
        ensures
            final(loader).wf(),
            weights == Self::at(old(loader).tensors().len() as int),
            final(loader).tensors() == old(loader).tensors() + codec_transformer_layer_tensors(prefix@),
    {
        let input_norm: usize = loader.named_vector(prefix, ".input_layernorm.weight", 512);
        let q_proj: usize = loader.named_matrix(prefix, ".self_attn.q_proj.weight", 1024, 512);
        let k_proj: usize = loader.named_matrix(prefix, ".self_attn.k_proj.weight", 1024, 512);
        let v_proj: usize = loader.named_matrix(prefix, ".self_attn.v_proj.weight", 1024, 512);
        let o_proj: usize = loader.named_matrix(prefix, ".self_attn.o_proj.weight", 512, 1024);
        let attention_scale: usize = loader.named_vector(prefix, ".self_attn_layer_scale.scale", 512);
        let post_attention_norm: usize = loader.named_vector(prefix, ".post_attention_layernorm.weight", 512);
        let gate_proj: usize = loader.named_matrix(prefix, ".mlp.gate_proj.weight", 1024, 512);
        let up_proj: usize = loader.named_matrix(prefix, ".mlp.up_proj.weight", 1024, 512);
        let down_proj: usize = loader.named_matrix(prefix, ".mlp.down_proj.weight", 512, 1024);
        let mlp_scale: usize = loader.named_vector(prefix, ".mlp_layer_scale.scale", 512);
        assert(loader.tensors() =~= old(loader).tensors() + codec_transformer_layer_tensors(prefix@));
        CodecTransformerLayer { input_norm, q_proj, k_proj, v_proj, o_proj, attention_scale, post_attention_norm, gate_proj, up_proj, down_proj, mlp_scale }
    }
}

/// One doubling stage of the codec, as buffers.
#[derive(Clone, Copy, Debug, PartialEq, Eq, Structural)]
pub struct CodecUpsampleStage {
    pub transposed_weight: usize,
    pub transposed_bias: usize,
    pub depthwise_weight: usize,
    pub depthwise_bias: usize,
    pub norm_weight: usize,
    pub norm_bias: usize,
    pub pointwise_in_weight: usize,
    pub pointwise_in_bias: usize,
    pub pointwise_out_weight: usize,
    pub pointwise_out_bias: usize,
    pub gamma: usize,
}

/// The tensors of a [`CodecUpsampleStage`] in loading order.
pub open spec fn codec_upsample_stage_tensors(prefix: Seq<char>) -> Seq<Tensor> {
    seq![
        listed(prefix + ".0.conv.weight"@, seq![1024, 1024, 2]),
        listed(prefix + ".0.conv.bias"@, seq![1024]),
        listed(prefix + ".1.dwconv.conv.weight"@, seq![1024, 1, 7]),
        listed(prefix + ".1.dwconv.conv.bias"@, seq![1024]),
        listed(prefix + ".1.norm.weight"@, seq![1024]),
        listed(prefix + ".1.norm.bias"@, seq![1024]),
        listed(prefix + ".1.pwconv1.weight"@, seq![4096, 1024]),
        listed(prefix + ".1.pwconv1.bias"@, seq![4096]),
        listed(prefix + ".1.pwconv2.weight"@, seq![1024, 4096]),
        listed(prefix + ".1.pwconv2.bias"@, seq![1024]),
        listed(prefix + ".1.gamma"@, seq![1024]),
    ]
}

impl CodecUpsampleStage {
    /// The buffers that start at `base`.
    pub open spec fn at(base: int) -> Self {
        CodecUpsampleStage {
            transposed_weight: base as usize,
            transposed_bias: (base + 1) as usize,
            depthwise_weight: (base + 2) as usize,
            depthwise_bias: (base + 3) as usize,
            norm_weight: (base + 4) as usize,
            norm_bias: (base + 5) as usize,
            pointwise_in_weight: (base + 6) as usize,
            pointwise_in_bias: (base + 7) as usize,
            pointwise_out_weight: (base + 8) as usize,
            pointwise_out_bias: (base + 9) as usize,
            gamma: (base + 10) as usize,
        }
    }

    /// The weights exist at their full size.
    pub open spec fn fits(self, plan: Plan) -> bool {
        &&& holds(plan, self.transposed_weight, 2097152)
        &&& holds(plan, self.transposed_bias, 1024)
        &&& holds(plan, self.depthwise_weight, 7168)
        &&& holds(plan, self.depthwise_bias, 1024)
        &&& holds(plan, self.norm_weight, 1024)
        &&& holds(plan, self.norm_bias, 1024)
        &&& holds(plan, self.pointwise_in_weight, 4194304)
        &&& holds(plan, self.pointwise_in_bias, 4096)
        &&& holds(plan, self.pointwise_out_weight, 4194304)
        &&& holds(plan, self.pointwise_out_bias, 1024)
        &&& holds(plan, self.gamma, 1024)
    }

    /// Requires the tensors.
    pub fn load(loader: &mut Loader, prefix: &str) -> (weights: Self)
        requires
            old(loader).wf(),
        ensures
            final(loader).wf(),
            weights == Self::at(old(loader).tensors().len() as int),
            final(loader).tensors() == old(loader).tensors() + codec_upsample_stage_tensors(prefix@),
    {
        let transposed_weight: usize = loader.named_cube(prefix, ".0.conv.weight", 1024, 1024, 2);
        let transposed_bias: usize = loader.named_vector(prefix, ".0.conv.bias", 1024);
        let depthwise_weight: usize = loader.named_cube(prefix, ".1.dwconv.conv.weight", 1024, 1, 7);
        let depthwise_bias: usize = loader.named_vector(prefix, ".1.dwconv.conv.bias", 1024);
        let norm_weight: usize = loader.named_vector(prefix, ".1.norm.weight", 1024);
        let norm_bias: usize = loader.named_vector(prefix, ".1.norm.bias", 1024);
        let pointwise_in_weight: usize = loader.named_matrix(prefix, ".1.pwconv1.weight", 4096, 1024);
        let pointwise_in_bias: usize = loader.named_vector(prefix, ".1.pwconv1.bias", 4096);
        let pointwise_out_weight: usize = loader.named_matrix(prefix, ".1.pwconv2.weight", 1024, 4096);
        let pointwise_out_bias: usize = loader.named_vector(prefix, ".1.pwconv2.bias", 1024);
        let gamma: usize = loader.named_vector(prefix, ".1.gamma", 1024);
        assert(loader.tensors() =~= old(loader).tensors() + codec_upsample_stage_tensors(prefix@));
        CodecUpsampleStage { transposed_weight, transposed_bias, depthwise_weight, depthwise_bias, norm_weight, norm_bias, pointwise_in_weight, pointwise_in_bias, pointwise_out_weight, pointwise_out_bias, gamma }
    }
}

/// The codec decoder, as buffers.
pub struct CodecQuantizer {
    pub first_codebook: usize,
    pub rest_codebooks: Vec<usize>,
    pub pre_conv_weight: usize,
    pub pre_conv_bias: usize,
    pub transformer_input_weight: usize,
    pub transformer_input_bias: usize,
    pub transformer_layers: Vec<CodecTransformerLayer>,
    pub upsample_stages: Vec<CodecUpsampleStage>,
    pub first_output_proj: usize,
    pub rest_output_proj: usize,
    pub transformer_norm: usize,
    pub transformer_output_weight: usize,
    pub transformer_output_bias: usize,
}

/// The two tensors of a codebook: the rows and how often each was used.
pub open spec fn codebook_tensors(prefix: Seq<char>) -> Seq<Tensor> {
    seq![
        Tensor {
            name: prefix + "._codebook.embedding_sum"@,
            shape: seq![CODEBOOK_SIZE, CODEBOOK_DIM],
            fault: Fault::found(prefix + " embedding_sum has shape "@).before(1),
            role: Role::RowsOverNext(LEAST_USAGE),
        },
        Tensor {
            name: prefix + "._codebook.cluster_usage"@,
            shape: seq![CODEBOOK_SIZE],
            fault: Fault::found(prefix + " cluster_usage has shape "@),
            role: Role::Plain,
        },
    ]
}

/// The tensors of the first `n` acoustic codebooks.
pub open spec fn rest_codebook_tensors(n: nat) -> Seq<Tensor>
    decreases n,
{
    if n == 0 {
        seq![]
    } else {
        rest_codebook_tensors((n - 1) as nat) + codebook_tensors(
            "decoder.quantizer.rvq_rest.vq.layers."@ + decimal((n - 1) as nat),
        )
    }
}

/// The tensors of the first `n` transformer layers.
pub open spec fn transformer_tensors(n: nat) -> Seq<Tensor>
    decreases n,
{
    if n == 0 {
        seq![]
    } else {
        transformer_tensors((n - 1) as nat) + codec_transformer_layer_tensors(
            "decoder.pre_transformer.layers."@ + decimal((n - 1) as nat),
        )
    }
}

/// The tensors of the first `n` doubling stages.
pub open spec fn upsample_tensors(n: nat) -> Seq<Tensor>
    decreases n,
{
    if n == 0 {
        seq![]
    } else {
        upsample_tensors((n - 1) as nat) + codec_upsample_stage_tensors(
            "decoder.upsample."@ + decimal((n - 1) as nat),
        )
    }
}

/// An output projection of the quantizers.
pub open spec fn projection_tensor(name: Seq<char>) -> Tensor {
    Tensor {
        name,
        shape: seq![LATENT_DIM, CODEBOOK_DIM, 1],
        fault: Fault::found(name + " has shape "@),
        role: Role::Plain,
    }
}

/// The tensors of the codec decoder in loading order.
pub open spec fn codec_tensors() -> Seq<Tensor> {
    codebook_tensors("decoder.quantizer.rvq_first.vq.layers.0"@) + rest_codebook_tensors(15)
        + seq![
        Tensor {
            name: "decoder.pre_conv.conv.weight"@,
            shape: seq![1024, LATENT_DIM, 3],
            fault: Fault::found("pre-conv weight has shape "@),
            role: Role::Plain,
        },
        Tensor {
            name: "decoder.pre_conv.conv.bias"@,
            shape: seq![1024],
            fault: Fault::found("pre-conv bias has shape "@),
            role: Role::Plain,
        },
        listed("decoder.pre_transformer.input_proj.weight"@, seq![512, 1024]),
        listed("decoder.pre_transformer.input_proj.bias"@, seq![512]),
    ] + transformer_tensors(8) + upsample_tensors(2) + seq![
        projection_tensor("decoder.quantizer.rvq_first.output_proj.weight"@),
        projection_tensor("decoder.quantizer.rvq_rest.output_proj.weight"@),
        listed("decoder.pre_transformer.norm.weight"@, seq![512]),
        listed("decoder.pre_transformer.output_proj.weight"@, seq![1024, 512]),
        listed("decoder.pre_transformer.output_proj.bias"@, seq![1024]),
    ]
}

/// Requires one codebook.
fn load_codebook(loader: &mut Loader, prefix: &str) -> (buffer: usize)
    requires
        old(loader).wf(),
    ensures
        final(loader).wf(),
        buffer == old(loader).tensors().len(),
        final(loader).tensors() == old(loader).tensors() + codebook_tensors(prefix@),
{
    let rows: usize = loader.matrix_as(
        prefix.to_owned().concat("._codebook.embedding_sum"),
        CODEBOOK_SIZE,
        CODEBOOK_DIM,
        Complaint::found(prefix.to_owned().concat(" embedding_sum has shape ")).before(1),
        Role::RowsOverNext(LEAST_USAGE),
    );
    let usage: usize = loader.vector(
        prefix.to_owned().concat("._codebook.cluster_usage"),
        CODEBOOK_SIZE,
        Complaint::found(prefix.to_owned().concat(" cluster_usage has shape ")),
    );
    assert(loader.tensors() =~= old(loader).tensors() + codebook_tensors(prefix@));
    rows
}

impl CodecQuantizer {
    /// The decoder whose first tensor is buffer `base`.
    pub open spec fn is_at(self, base: int) -> bool {
        &&& self.first_codebook == base
        &&& self.rest_codebooks@.len() == 15
        &&& forall|i: int|
            0 <= i < 15 ==> #[trigger] self.rest_codebooks@[i] == base + 2 + 2 * i
        &&& self.pre_conv_weight == base + 32
        &&& self.pre_conv_bias == base + 33
        &&& self.transformer_input_weight == base + 34
        &&& self.transformer_input_bias == base + 35
        &&& self.transformer_layers@.len() == 8
        &&& forall|i: int|
            0 <= i < 8 ==> #[trigger] self.transformer_layers@[i] == CodecTransformerLayer::at(
                base + 36 + 11 * i,
            )
        &&& self.upsample_stages@.len() == 2
        &&& forall|i: int|
            0 <= i < 2 ==> #[trigger] self.upsample_stages@[i] == CodecUpsampleStage::at(
                base + 124 + 11 * i,
            )
        &&& self.first_output_proj == base + 146
        &&& self.rest_output_proj == base + 147
        &&& self.transformer_norm == base + 148
        &&& self.transformer_output_weight == base + 149
        &&& self.transformer_output_bias == base + 150
    }

    /// Requires the weights of the codec decoder.
    pub fn load(loader: &mut Loader) -> (model: Self)
        requires
            old(loader).wf(),
        ensures
            final(loader).wf(),
            model.is_at(old(loader).tensors().len() as int),
            final(loader).tensors() == old(loader).tensors() + codec_tensors(),
    {
        let ghost start = loader.tensors();
        let ghost base = start.len() as int;
        let first_codebook: usize = load_codebook(loader, "decoder.quantizer.rvq_first.vq.layers.0");
        let mut rest_codebooks: Vec<usize> = Vec::new();
        let ghost mark = loader.tensors();
        assert(mark + rest_codebook_tensors(0) =~= mark);
        for i in 0..15usize
            invariant
                loader.wf(),
                mark.len() == base + 2,
                rest_codebooks@.len() == i,
                forall|j: int| 0 <= j < i ==> #[trigger] rest_codebooks@[j] == base + 2 + 2 * j,
                loader.tensors() == mark + rest_codebook_tensors(i as nat),
                loader.tensors().len() == base + 2 + 2 * i,
        {
            let prefix = "decoder.quantizer.rvq_rest.vq.layers.".to_owned().concat(
                &to_decimal(i as u64),
            );
            let buffer: usize = load_codebook(loader, prefix.as_str());
            rest_codebooks.push(buffer);
            assert(loader.tensors() =~= mark + rest_codebook_tensors((i + 1) as nat));
        }
        let ghost books = loader.tensors();
        let pre_conv_weight: usize = loader.cube(
            "decoder.pre_conv.conv.weight".to_owned(),
            1024,
            LATENT_DIM,
            3,
            Complaint::found("pre-conv weight has shape ".to_owned()),
        );
        let pre_conv_bias: usize = loader.vector(
            "decoder.pre_conv.conv.bias".to_owned(),
            1024,
            Complaint::found("pre-conv bias has shape ".to_owned()),
        );
        let transformer_input_weight: usize = loader.matrix(
            "decoder.pre_transformer.input_proj.weight".to_owned(),
            512,
            1024,
            Complaint::expected().gone(Absence::NotFound),
        );
        let transformer_input_bias: usize = loader.vector(
            "decoder.pre_transformer.input_proj.bias".to_owned(),
            512,
            Complaint::expected().gone(Absence::NotFound),
        );
        let mut transformer_layers: Vec<CodecTransformerLayer> = Vec::new();
        let ghost inputs = loader.tensors();
        assert(inputs + transformer_tensors(0) =~= inputs);
        for i in 0..8usize
            invariant
                loader.wf(),
                inputs.len() == base + 36,
                transformer_layers@.len() == i,
                forall|j: int|
                    0 <= j < i ==> #[trigger] transformer_layers@[j] == CodecTransformerLayer::at(
                        base + 36 + 11 * j,
                    ),
                loader.tensors() == inputs + transformer_tensors(i as nat),
                loader.tensors().len() == base + 36 + 11 * i,
        {
            let prefix = "decoder.pre_transformer.layers.".to_owned().concat(&to_decimal(i as u64));
            let layer = CodecTransformerLayer::load(loader, prefix.as_str());
            transformer_layers.push(layer);
            assert(loader.tensors() =~= inputs + transformer_tensors((i + 1) as nat));
        }
        let mut upsample_stages: Vec<CodecUpsampleStage> = Vec::new();
        let ghost layers = loader.tensors();
        assert(layers + upsample_tensors(0) =~= layers);
        for i in 0..2usize
            invariant
                loader.wf(),
                layers.len() == base + 124,
                upsample_stages@.len() == i,
                forall|j: int|
                    0 <= j < i ==> #[trigger] upsample_stages@[j] == CodecUpsampleStage::at(
                        base + 124 + 11 * j,
                    ),
                loader.tensors() == layers + upsample_tensors(i as nat),
                loader.tensors().len() == base + 124 + 11 * i,
        {
            let prefix = "decoder.upsample.".to_owned().concat(&to_decimal(i as u64));
            let stage = CodecUpsampleStage::load(loader, prefix.as_str());
            upsample_stages.push(stage);
            assert(loader.tensors() =~= layers + upsample_tensors((i + 1) as nat));
        }
        let first_output_proj: usize = loader.cube(
            "decoder.quantizer.rvq_first.output_proj.weight".to_owned(),
            LATENT_DIM,
            CODEBOOK_DIM,
            1,
            Complaint::found(
                "decoder.quantizer.rvq_first.output_proj.weight".to_owned().concat(" has shape "),
            ),
        );
        let rest_output_proj: usize = loader.cube(
            "decoder.quantizer.rvq_rest.output_proj.weight".to_owned(),
            LATENT_DIM,
            CODEBOOK_DIM,
            1,
            Complaint::found(
                "decoder.quantizer.rvq_rest.output_proj.weight".to_owned().concat(" has shape "),
            ),
        );
        let transformer_norm: usize = loader.vector(
            "decoder.pre_transformer.norm.weight".to_owned(),
            512,
            Complaint::expected().gone(Absence::NotFound),
        );
        let transformer_output_weight: usize = loader.matrix(
            "decoder.pre_transformer.output_proj.weight".to_owned(),
            1024,
            512,
            Complaint::expected().gone(Absence::NotFound),
        );
        let transformer_output_bias: usize = loader.vector(
            "decoder.pre_transformer.output_proj.bias".to_owned(),
            1024,
            Complaint::expected().gone(Absence::NotFound),
        );
        assert(loader.tensors() =~= start + codec_tensors());
        CodecQuantizer {
            first_codebook,
            rest_codebooks,
            pre_conv_weight,
            pre_conv_bias,
            transformer_input_weight,
            transformer_input_bias,
            transformer_layers,
            upsample_stages,
            first_output_proj,
            rest_output_proj,
            transformer_norm,
            transformer_output_weight,
            transformer_output_bias,
        }
    }
}

/// The row of the first codebook that a code stands for: codes wrap around.
pub open spec fn first_row(code: i32) -> i32 {
    ((code as int) % 2048) as i32
}

/// The row of the first codebook that a code stands for.
pub fn wrap_code(code: i32) -> (row: i32)
    ensures
        row == first_row(code),
        0 <= row < 2048,
{
    ((code as i64 + 0x8000_0000) % 2048) as i32
}

/// The first of the codes `1..=n` that is not a codebook row.
pub open spec fn first_bad_group(codes: Seq<i32>, n: nat) -> Option<nat>
    decreases n,
{
    if n == 0 {
        None
    } else if first_bad_group(codes, (n - 1) as nat) is Some {
        first_bad_group(codes, (n - 1) as nat)
    } else if 0 <= codes[n as int] < 2048 {
        None
    } else {
        Some(n)
    }
}

/// Why `codes` is not a frame, if it is not.
pub open spec fn frame_fault(codes: Seq<i32>) -> Option<Seq<char>> {
    if codes.len() != 16 {
        Some("codec frame has "@ + decimal(codes.len()) + " codes, expected 16"@)
    } else {
        match first_bad_group(codes, 15) {
            Some(group) => Some(
                "acoustic code "@ + signed_decimal(codes[group as int] as int) + " at group "@
                    + decimal(group) + " is outside 0..2048"@,
            ),
            None => None,
        }
    }
}

/// Once a group is bad, it stays the first bad one.
proof fn lemma_bad_group_stays(codes: Seq<i32>, n: nat, m: nat)
    requires
        n <= m,
        first_bad_group(codes, n) is Some,
    ensures
        first_bad_group(codes, m) == first_bad_group(codes, n),
    decreases m,
{
    if n < m {
        lemma_bad_group_stays(codes, n, (m - 1) as nat);
    }
}

/// Checks that `codes` is a frame.
pub fn check_frame(codes: &[i32]) -> (outcome: Result<(), String>)
    ensures
        outcome is Ok <==> frame_fault(codes@) is None,
        outcome matches Err(message) ==> frame_fault(codes@) == Some(message@),
{
    if codes.len() != QUANTIZERS {
        return Err(
            "codec frame has ".to_owned().concat(&to_decimal(codes.len() as u64)).concat(
                " codes, expected 16",
            ),
        );
    }
    for i in 1..16usize
        invariant
            codes@.len() == 16,
            first_bad_group(codes@, (i - 1) as nat) is None,
    {
        let code: i32 = codes[i];
        if code < 0 || code >= 2048 {
            proof {
                lemma_bad_group_stays(codes@, i as nat, 15);
            }
            return Err(
                "acoustic code ".to_owned().concat(&to_signed_decimal(code)).concat(
                    " at group ",
                ).concat(&to_decimal(i as u64)).concat(" is outside 0..2048"),
            );
        }
    }
    Ok(())
}

/// The sum of the rows that the codes `1..=n` stand for.
pub open spec fn acoustic_sum(codebooks: Seq<Term>, codes: Seq<i32>, n: nat) -> Term
    decreases n,
{
    if n == 0 {
        Term::Zeros(256)
    } else {
        add_inplace_f32_f16(
            acoustic_sum(codebooks, codes, (n - 1) as nat),
            gather_rows_f16(codebooks[n - 1], Term::Integers(seq![codes[n as int]]), 1, 256),
            256,
        )
    }
}

/// The values of a list of buffers.
pub open spec fn values_of(plan: Plan, buffers: Seq<usize>) -> Seq<Term> {
    buffers.map_values(|b: usize| plan.values()[b as int])
}

impl CodecQuantizer {
    /// The weights exist at their full size.
    pub open spec fn fits(self, plan: Plan) -> bool {
        &&& holds(plan, self.first_codebook, 524288)
        &&& self.rest_codebooks@.len() == 15
        &&& forall|i: int| 0 <= i < 15 ==> holds(plan, #[trigger] self.rest_codebooks@[i], 524288)
        &&& holds(plan, self.first_output_proj, 131072)
        &&& holds(plan, self.rest_output_proj, 131072)
        &&& holds(plan, self.pre_conv_weight, 1572864)
        &&& holds(plan, self.pre_conv_bias, 1024)
        &&& holds(plan, self.transformer_input_weight, 524288)
        &&& holds(plan, self.transformer_input_bias, 512)
        &&& self.transformer_layers@.len() == 8
        &&& self.upsample_stages@.len() == 2
        &&& forall|i: int|
            0 <= i < self.transformer_layers@.len() ==> (#[trigger] self.transformer_layers@[i]).fits(
                plan,
            )
        &&& holds(plan, self.transformer_norm, 512)
        &&& holds(plan, self.transformer_output_weight, 524288)
        &&& holds(plan, self.transformer_output_bias, 1024)
        &&& forall|i: int|
            0 <= i < self.upsample_stages@.len() ==> (#[trigger] self.upsample_stages@[i]).fits(plan)
    }

    /// The latent of a frame: the projected first row plus the projected sum
    /// of the other rows.
    pub open spec fn latent(self, plan: Plan, codes: Seq<i32>) -> Term {
        let v = plan.values();
        let first = gather_rows_f16(
            v[self.first_codebook as int],
            Term::Integers(seq![first_row(codes[0])]),
            1,
            256,
        );
        let rest = copy_f32_to_f16(
            acoustic_sum(values_of(plan, self.rest_codebooks@), codes, 15),
            256,
        );
        add_f16(
            gemv_f16(first, v[self.first_output_proj as int], 512, 256),
            gemv_f16(rest, v[self.rest_output_proj as int], 512, 256),
            512,
        )
    }

    /// The latent of a frame after the causal convolution.
    pub open spec fn preconv(self, plan: Plan, codes: Seq<i32>) -> Term {
        conv1d_causal_f16(
            self.latent(plan, codes),
            plan.values()[self.pre_conv_weight as int],
            plan.values()[self.pre_conv_bias as int],
            512,
            1024,
            1,
            3,
            1,
            1,
        )
    }

    /// Decodes one frame of sixteen codes. The result names the buffer of the
    /// 512-channel latent.
    pub fn decode_frame(&self, plan: &mut Plan, codes: &[i32]) -> (outcome: Result<usize, String>)
        requires
            old(plan).wf(),
            self.fits(*old(plan)),
        ensures
            final(plan).wf(),
            match outcome {
                Err(message) => frame_fault(codes@) == Some(message@) && *final(plan) == *old(plan),
                Ok(output) => {
                    &&& frame_fault(codes@) is None
                    &&& extends(*old(plan), *final(plan))
                    &&& final(plan).values().len() == old(plan).values().len() + 22
                    &&& sized(*final(plan), output, 512)
                    &&& final(plan).values()[output as int] == self.latent(*old(plan), codes@)
                },
            },
    {
        match check_frame(codes) {
            Ok(_) => {},
            Err(message) => {
                return Err(message);
            },
        }
        let ghost start = *plan;
        let first_id: i32 = wrap_code(codes[0]);
        let ids: Vec<i32> = vec![first_id];
        assert(ids@ =~= seq![first_id]);
        let first_id_buffer: usize = plan.upload(ids.as_slice());
        let first_embed: usize = plan.zeros(CODEBOOK_DIM);
        plan.gather_rows_f16(self.first_codebook, first_id_buffer, first_embed, 1, 256);
        let rest_accum: usize = plan.zeros(CODEBOOK_DIM);
        let rest_embed: usize = plan.zeros(CODEBOOK_DIM);
        let ghost books = values_of(start, self.rest_codebooks@);
        let ghost n = start.values().len() as int;
        let ghost embedded = plan.values()[first_embed as int];
        for i in 1..16usize
            invariant
                plan.wf(),
                start.wf(),
                codes@.len() == 16,
                self.fits(start),
                n == start.values().len(),
                books == values_of(start, self.rest_codebooks@),
                plan.values().len() == n + 3 + i,
                extends(start, *plan),
                first_embed == n + 1,
                rest_accum == n + 2,
                rest_embed == n + 3,
                holds(*plan, first_embed, 256),
                holds(*plan, rest_accum, 256),
                holds(*plan, rest_embed, 256),
                plan.values()[first_embed as int] == embedded,
                plan.values()[rest_accum as int] == acoustic_sum(books, codes@, (i - 1) as nat),
        {
            let code: i32 = codes[i];
            let ids: Vec<i32> = vec![code];
            assert(ids@ =~= seq![code]);
            let id: usize = plan.upload(ids.as_slice());
            let codebook: usize = self.rest_codebooks[i - 1];
            proof {
                assert(holds(start, codebook, 524288));
                assert(books[i - 1] == start.values()[codebook as int]);
            }
            plan.gather_rows_f16(codebook, id, rest_embed, 1, 256);
            plan.add_inplace_f32_f16(rest_accum, rest_embed, 256);
        }
        plan.copy_f32_to_f16(rest_accum, rest_embed, 256);
        let first_projected: usize = plan.zeros(LATENT_DIM);
        let rest_projected: usize = plan.zeros(LATENT_DIM);
        let latent: usize = plan.zeros(LATENT_DIM);
        plan.gemv_f16(first_embed, self.first_output_proj, first_projected, 512, 256);
        plan.gemv_f16(rest_embed, self.rest_output_proj, rest_projected, 512, 256);
        plan.add_f16(first_projected, rest_projected, latent, 512);
        Ok(latent)
    }

    /// Decodes one frame and applies the causal convolution to 1024 channels.
    pub fn decode_frame_preconv(&self, plan: &mut Plan, codes: &[i32]) -> (outcome: Result<
        usize,
        String,
    >)
        requires
            old(plan).wf(),
            self.fits(*old(plan)),
        ensures
            final(plan).wf(),
            match outcome {
                Err(message) => frame_fault(codes@) == Some(message@) && *final(plan) == *old(plan),
                Ok(output) => {
                    &&& frame_fault(codes@) is None
                    &&& extends(*old(plan), *final(plan))
                    &&& final(plan).values().len() == old(plan).values().len() + 23
                    &&& sized(*final(plan), output, 1024)
                    &&& final(plan).values()[output as int] == self.preconv(*old(plan), codes@)
                },
            },
    {
        match self.decode_frame(plan, codes) {
            Err(message) => Err(message),
            Ok(latent) => {
                let output: usize = plan.zeros(1024);
                plan.conv1d_causal_f16(
                    latent,
                    self.pre_conv_weight,
                    self.pre_conv_bias,
                    output,
                    512,
                    1024,
                    1,
                    3,
                    1,
                    1,
                );
                Ok(output)
            },
        }
    }
}

/// Attention of a single frame to itself, scaled and added to the stream.
pub open spec fn codec_attended(w: CodecTransformerLayer, plan: Plan, x: Term) -> Term {
    let v = plan.values();
    let theta = Scalar::Single(THETA_10000);
    let normed = rms_norm_f32in(x, v[w.input_norm as int], 1, 512, Scalar::Single(EPS_1E5));
    let q = rope_neox(gemv_f16(normed, v[w.q_proj as int], 1024, 512), 1, 16, 64, 0, theta);
    let k = rope_neox(gemv_f16(normed, v[w.k_proj as int], 1024, 512), 1, 16, 64, 0, theta);
    let value = gemv_f16(normed, v[w.v_proj as int], 1024, 512);
    let out = mha_fused(q, k, value, 64, 16, 16, 1, 1, 0);
    add_inplace_f32_f16(
        x,
        mul_f16_broadcast(
            gemv_f16(out, v[w.o_proj as int], 512, 1024),
            v[w.attention_scale as int],
            512,
            512,
        ),
        512,
    )
}

/// A SwiGLU network, scaled and added to the stream.
pub open spec fn codec_fed_forward(w: CodecTransformerLayer, plan: Plan, x: Term) -> Term {
    let v = plan.values();
    let normed = rms_norm_f32in(
        x,
        v[w.post_attention_norm as int],
        1,
        512,
        Scalar::Single(EPS_1E5),
    );
    let gate = gemv_dual_f16_out_a(
        normed,
        v[w.gate_proj as int],
        v[w.up_proj as int],
        1024,
        512,
    );
    let up = gemv_dual_f16_out_b(normed, v[w.gate_proj as int], v[w.up_proj as int], 1024, 512);
    add_inplace_f32_f16(
        x,
        mul_f16_broadcast(
            gemv_f16(silu(gate, up, 1024), v[w.down_proj as int], 512, 1024),
            v[w.mlp_scale as int],
            512,
            512,
        ),
        512,
    )
}

/// The stream after the first `n` codec layers.
pub open spec fn codec_layers(
    layers: Seq<CodecTransformerLayer>,
    plan: Plan,
    x: Term,
    n: nat,
) -> Term
    decreases n,
{
    if n == 0 {
        x
    } else {
        codec_fed_forward(
            layers[n - 1],
            plan,
            codec_attended(layers[n - 1], plan, codec_layers(layers, plan, x, (n - 1) as nat)),
        )
    }
}

/// The eleven working buffers of the codec transformer, from `hidden` on.
pub open spec fn working(plan: Plan, hidden: usize) -> bool {
    &&& hidden + 11 <= plan.values().len()
    &&& hidden + 11 <= usize::MAX
    &&& holds(plan, hidden, 512)
    &&& holds(plan, (hidden + 1) as usize, 512)
    &&& holds(plan, (hidden + 2) as usize, 1024)
    &&& holds(plan, (hidden + 3) as usize, 1024)
    &&& holds(plan, (hidden + 4) as usize, 1024)
    &&& holds(plan, (hidden + 5) as usize, 1024)
    &&& holds(plan, (hidden + 6) as usize, 512)
    &&& holds(plan, (hidden + 7) as usize, 512)
    &&& holds(plan, (hidden + 8) as usize, 1024)
    &&& holds(plan, (hidden + 9) as usize, 1024)
    &&& holds(plan, (hidden + 10) as usize, 1024)
}

impl CodecTransformerLayer {
    /// Adds the attention of this layer to the stream in `hidden`.
    fn attend(&self, plan: &mut Plan, hidden: usize, Ghost(start): Ghost<Plan>)
        requires
            old(plan).wf(),
            start.values().len() <= hidden,
            self.fits(start),
            extends(start, *old(plan)),
            working(*old(plan), hidden),
        ensures
            final(plan).wf(),
            final(plan).sizes() == old(plan).sizes(),
            final(plan).values().len() == old(plan).values().len(),
            extends(start, *final(plan)),
            final(plan).values()[hidden as int] == codec_attended(
                *self,
                start,
                old(plan).values()[hidden as int],
            ),
            forall|i: int|
                0 <= i < old(plan).values().len() && !(hidden <= i < hidden + 11)
                    ==> #[trigger] final(plan).values()[i] == old(plan).values()[i],
    {
        let norm: usize = hidden + 1;
        let q: usize = hidden + 2;
        let k: usize = hidden + 3;
        let v: usize = hidden + 4;
        let attention: usize = hidden + 5;
        let delta: usize = hidden + 6;
        let scaled: usize = hidden + 7;
        let theta = Scalar::Single(THETA_10000);
        plan.rms_norm_f32in(hidden, self.input_norm, norm, 1, 512, Scalar::Single(EPS_1E5));
        plan.gemv_f16(norm, self.q_proj, q, 1024, 512);
        plan.gemv_f16(norm, self.k_proj, k, 1024, 512);
        plan.gemv_f16(norm, self.v_proj, v, 1024, 512);
        plan.rope_neox(q, 1, 16, 64, 0, theta);
        plan.rope_neox(k, 1, 16, 64, 0, theta);
        plan.mha_fused(q, k, v, attention, 64, 16, 16, 1, 1, 0);
        plan.gemv_f16(attention, self.o_proj, delta, 512, 1024);
        plan.mul_f16_broadcast(delta, self.attention_scale, scaled, 512, 512);
        plan.add_inplace_f32_f16(hidden, scaled, 512);
    }

    /// Adds the feed-forward network of this layer to the stream in `hidden`.
    fn feed_forward(&self, plan: &mut Plan, hidden: usize, Ghost(start): Ghost<Plan>)
        requires
            old(plan).wf(),
            start.values().len() <= hidden,
            self.fits(start),
            extends(start, *old(plan)),
            working(*old(plan), hidden),
        ensures
            final(plan).wf(),
            final(plan).sizes() == old(plan).sizes(),
            final(plan).values().len() == old(plan).values().len(),
            extends(start, *final(plan)),
            final(plan).values()[hidden as int] == codec_fed_forward(
                *self,
                start,
                old(plan).values()[hidden as int],
            ),
            forall|i: int|
                0 <= i < old(plan).values().len() && !(hidden <= i < hidden + 11)
                    ==> #[trigger] final(plan).values()[i] == old(plan).values()[i],
    {
        let norm: usize = hidden + 1;
        let delta: usize = hidden + 6;
        let scaled: usize = hidden + 7;
        let gate: usize = hidden + 8;
        let up: usize = hidden + 9;
        let activation: usize = hidden + 10;
        plan.rms_norm_f32in(
            hidden,
            self.post_attention_norm,
            norm,
            1,
            512,
            Scalar::Single(EPS_1E5),
        );
        plan.gemv_dual_f16(norm, self.gate_proj, self.up_proj, gate, up, 1024, 512);
        plan.silu(gate, up, activation, 1024);
        plan.gemv_f16(activation, self.down_proj, delta, 512, 1024);
        plan.mul_f16_broadcast(delta, self.mlp_scale, scaled, 512, 512);
        plan.add_inplace_f32_f16(hidden, scaled, 512);
    }
}

/// One doubling stage: a transposed convolution, and a ConvNeXt block added to
/// its result. `len` is the number of output frames.
pub open spec fn upsampled(w: CodecUpsampleStage, plan: Plan, x: Term, len: u32) -> Term {
    let v = plan.values();
    let residual = conv_transpose1d_causal_f16(
        x,
        v[w.transposed_weight as int],
        v[w.transposed_bias as int],
        1024,
        1024,
        (len / 2) as u32,
        2,
        2,
    );
    let depthwise = conv1d_causal_f16(
        residual,
        v[w.depthwise_weight as int],
        v[w.depthwise_bias as int],
        1024,
        1024,
        len,
        7,
        1,
        1024,
    );
    let normalized = layer_norm_f32in(
        copy_f16_to_f32(transpose_f16(depthwise, 1024, len), (1024 * len) as u32),
        v[w.norm_weight as int],
        v[w.norm_bias as int],
        len,
        1024,
        Scalar::Single(EPS_1E6),
    );
    let expanded = add_bias_f16_inplace(
        matmul_f16(normalized, v[w.pointwise_in_weight as int], len, 4096, 1024),
        v[w.pointwise_in_bias as int],
        len,
        4096,
    );
    let projected = add_bias_f16_inplace(
        matmul_f16(
            gelu_erf_f16(expanded, (4096 * len) as u32),
            v[w.pointwise_out_weight as int],
            len,
            1024,
            4096,
        ),
        v[w.pointwise_out_bias as int],
        len,
        1024,
    );
    let scaled = mul_f16_broadcast(projected, v[w.gamma as int], (1024 * len) as u32, 1024);
    add_f16(residual, transpose_f16(scaled, len, 1024), (1024 * len) as u32)
}

/// The frames after the first `n` doubling stages.
pub open spec fn upsample_stages(
    stages: Seq<CodecUpsampleStage>,
    plan: Plan,
    x: Term,
    n: nat,
) -> Term
    decreases n,
{
    if n == 0 {
        x
    } else {
        upsampled(
            stages[n - 1],
            plan,
            upsample_stages(stages, plan, x, (n - 1) as nat),
            if n == 1 { 2 } else { 4 },
        )
    }
}

impl CodecUpsampleStage {
    /// Doubles `seq_len` frames of 1024 channels. The result names the buffer
    /// of the doubled frames.
    fn forward(&self, plan: &mut Plan, input: usize, seq_len: usize, Ghost(start): Ghost<Plan>) -> (
    output: usize)
        requires
            old(plan).wf(),
            self.fits(start),
            extends(start, *old(plan)),
            1 <= seq_len <= 2,
            holds(*old(plan), input, 1024 * seq_len),
        ensures
            final(plan).wf(),
            final(plan).values().len() == old(plan).values().len() + 11,
            extends(*old(plan), *final(plan)),
            sized(*final(plan), output, 1024 * (2 * seq_len)),
            final(plan).values()[output as int] == upsampled(
                *self,
                start,
                old(plan).values()[input as int],
                (2 * seq_len) as u32,
            ),
    {
        let len: usize = seq_len * 2;
        let n: u32 = len as u32;
        let residual: usize = plan.zeros(1024 * len);
        plan.conv_transpose1d_causal_f16(
            input,
            self.transposed_weight,
            self.transposed_bias,
            residual,
            1024,
            1024,
            seq_len as u32,
            2,
            2,
        );
        let depthwise: usize = plan.zeros(1024 * len);
        plan.conv1d_causal_f16(
            residual,
            self.depthwise_weight,
            self.depthwise_bias,
            depthwise,
            1024,
            1024,
            n,
            7,
            1,
            1024,
        );
        let channel_last: usize = plan.zeros(1024 * len);
        plan.transpose_f16(depthwise, channel_last, 1024, n);
        let channel_last_f32: usize = plan.zeros(1024 * len);
        plan.copy_f16_to_f32(channel_last, channel_last_f32, 1024 * n);
        let normalized: usize = plan.zeros(1024 * len);
        plan.layer_norm_f32in(
            channel_last_f32,
            self.norm_weight,
            self.norm_bias,
            normalized,
            n,
            1024,
            Scalar::Single(EPS_1E6),
        );
        let expanded: usize = plan.zeros(4096 * len);
        plan.matmul_f16(normalized, self.pointwise_in_weight, expanded, n, 4096, 1024);
        plan.add_bias_f16_inplace(expanded, self.pointwise_in_bias, n, 4096);
        let activated: usize = plan.zeros(4096 * len);
        plan.gelu_erf_f16(expanded, activated, 4096 * n);
        let projected: usize = plan.zeros(1024 * len);
        plan.matmul_f16(activated, self.pointwise_out_weight, projected, n, 1024, 4096);
        plan.add_bias_f16_inplace(projected, self.pointwise_out_bias, n, 1024);
        let scaled: usize = plan.zeros(1024 * len);
        plan.mul_f16_broadcast(projected, self.gamma, scaled, 1024 * n, 1024);
        let channel_first: usize = plan.zeros(1024 * len);
        plan.transpose_f16(scaled, channel_first, n, 1024);
        let output: usize = plan.zeros(1024 * len);
        plan.add_f16(residual, channel_first, output, 1024 * n);
        output
    }
}

impl CodecQuantizer {
    /// A frame after the codec transformer.
    pub open spec fn transformed(self, plan: Plan, codes: Seq<i32>) -> Term {
        let v = plan.values();
        let projected = add_bias_f16_inplace(
            gemv_f16(
                self.preconv(plan, codes),
                v[self.transformer_input_weight as int],
                512,
                1024,
            ),
            v[self.transformer_input_bias as int],
            1,
            512,
        );
        let last = codec_layers(
            self.transformer_layers@,
            plan,
            copy_f16_to_f32(projected, 512),
            self.transformer_layers@.len(),
        );
        let normed = rms_norm_f32in(
            last,
            v[self.transformer_norm as int],
            1,
            512,
            Scalar::Single(EPS_1E5),
        );
        add_bias_f16_inplace(
            gemv_f16(normed, v[self.transformer_output_weight as int], 1024, 512),
            v[self.transformer_output_bias as int],
            1,
            1024,
        )
    }

    /// Decodes one frame through the convolution and the transformer. The
    /// result names the buffer of the 1024 output channels.
    pub fn decode_frame_transformer(&self, plan: &mut Plan, codes: &[i32]) -> (outcome: Result<
        usize,
        String,
    >)
        requires
            old(plan).wf(),
            self.fits(*old(plan)),
        ensures
            final(plan).wf(),
            match outcome {
                Err(message) => frame_fault(codes@) == Some(message@) && *final(plan) == *old(plan),
                Ok(output) => {
                    &&& frame_fault(codes@) is None
                    &&& extends(*old(plan), *final(plan))
                    &&& final(plan).values().len() == old(plan).values().len() + 36
                    &&& sized(*final(plan), output, 1024)
                    &&& final(plan).values()[output as int] == self.transformed(*old(plan), codes@)
                },
            },
    {
        let ghost start = *plan;
        let preconv: usize = match self.decode_frame_preconv(plan, codes) {
            Err(message) => {
                return Err(message);
            },
            Ok(preconv) => preconv,
        };
        let projected: usize = plan.zeros(512);
        plan.gemv_f16(preconv, self.transformer_input_weight, projected, 512, 1024);
        plan.add_bias_f16_inplace(projected, self.transformer_input_bias, 1, 512);
        let hidden: usize = plan.zeros(512);
        plan.copy_f16_to_f32(projected, hidden, 512);
        let norm: usize = plan.zeros(512);
        let q: usize = plan.zeros(1024);
        let k: usize = plan.zeros(1024);
        let v: usize = plan.zeros(1024);
        let attention: usize = plan.zeros(1024);
        let delta: usize = plan.zeros(512);
        let scaled: usize = plan.zeros(512);
        let gate: usize = plan.zeros(1024);
        let up: usize = plan.zeros(1024);
        let activation: usize = plan.zeros(1024);
        let ghost entry = plan.values()[hidden as int];
        let count: usize = self.transformer_layers.len();
        proof {
            plan.lemma_buffers_fit();
        }
        for i in 0..count
            invariant
                plan.wf(),
                start.wf(),
                count == self.transformer_layers@.len(),
                self.fits(start),
                extends(start, *plan),
                start.values().len() <= hidden,
                plan.values().len() == start.values().len() + 35,
                working(*plan, hidden),
                plan.values()[hidden as int] == codec_layers(
                    self.transformer_layers@,
                    start,
                    entry,
                    i as nat,
                ),
        {
            let layer = self.transformer_layers[i];
            assert(self.transformer_layers@[i as int].fits(start));
            layer.attend(plan, hidden, Ghost(start));
            layer.feed_forward(plan, hidden, Ghost(start));
        }
        plan.rms_norm_f32in(
            hidden,
            self.transformer_norm,
            hidden + 1,
            1,
            512,
            Scalar::Single(EPS_1E5),
        );
        let output: usize = plan.zeros(1024);
        plan.gemv_f16(hidden + 1, self.transformer_output_weight, output, 1024, 512);
        plan.add_bias_f16_inplace(output, self.transformer_output_bias, 1, 1024);
        Ok(output)
    }

    /// Decodes one frame through both doubling stages. The result names the
    /// buffer of four frames of 1024 channels.
    pub fn decode_frame_upsampled(&self, plan: &mut Plan, codes: &[i32]) -> (outcome: Result<
        usize,
        String,
    >)
        requires
            old(plan).wf(),
            self.fits(*old(plan)),
        ensures
            final(plan).wf(),
            match outcome {
                Err(message) => frame_fault(codes@) == Some(message@) && *final(plan) == *old(plan),
                Ok(output) => {
                    &&& frame_fault(codes@) is None
                    &&& extends(*old(plan), *final(plan))
                    &&& sized(*final(plan), output, 4096)
                    &&& final(plan).values()[output as int] == upsample_stages(
                        self.upsample_stages@,
                        *old(plan),
                        self.transformed(*old(plan), codes@),
                        2,
                    )
                },
            },
    {
        let ghost start = *plan;
        match self.decode_frame_transformer(plan, codes) {
            Err(message) => Err(message),
            Ok(transformed) => {
                proof {
                    reveal_with_fuel(upsample_stages, 3);
                    assert(self.upsample_stages@[0].fits(start));
                    assert(self.upsample_stages@[1].fits(start));
                }
                let first = self.upsample_stages[0];
                let second = self.upsample_stages[1];
                let doubled: usize = first.forward(plan, transformed, 1, Ghost(start));
                let output: usize = second.forward(plan, doubled, 2, Ghost(start));
                Ok(output)
            },
        }
    }
}

impl CodecTransformerLayer {
    /// Loaded weights exist at their full size.
    pub proof fn law_loaded_weights_fit(plan: Plan, base: int, prefix: Seq<char>)
        requires
            stores(plan, base, codec_transformer_layer_tensors(prefix)),
        ensures
            Self::at(base).fits(plan),
    {
        let tensors = codec_transformer_layer_tensors(prefix);
        lemma_stored1(plan, base, tensors, 0, 512);
        lemma_stored2(plan, base, tensors, 1, 1024, 512);
        lemma_stored2(plan, base, tensors, 2, 1024, 512);
        lemma_stored2(plan, base, tensors, 3, 1024, 512);
        lemma_stored2(plan, base, tensors, 4, 512, 1024);
        lemma_stored1(plan, base, tensors, 5, 512);
        lemma_stored1(plan, base, tensors, 6, 512);
        lemma_stored2(plan, base, tensors, 7, 1024, 512);
        lemma_stored2(plan, base, tensors, 8, 1024, 512);
        lemma_stored2(plan, base, tensors, 9, 512, 1024);
        lemma_stored1(plan, base, tensors, 10, 512);
    }
}

impl CodecUpsampleStage {
    /// Loaded weights exist at their full size.
    pub proof fn law_loaded_weights_fit(plan: Plan, base: int, prefix: Seq<char>)
        requires
            stores(plan, base, codec_upsample_stage_tensors(prefix)),
        ensures
            Self::at(base).fits(plan),
    {
        let tensors = codec_upsample_stage_tensors(prefix);
        lemma_stored3(plan, base, tensors, 0, 1024, 1024, 2);
        lemma_stored1(plan, base, tensors, 1, 1024);
        lemma_stored3(plan, base, tensors, 2, 1024, 1, 7);
        lemma_stored1(plan, base, tensors, 3, 1024);
        lemma_stored1(plan, base, tensors, 4, 1024);
        lemma_stored1(plan, base, tensors, 5, 1024);
        lemma_stored2(plan, base, tensors, 6, 4096, 1024);
        lemma_stored1(plan, base, tensors, 7, 4096);
        lemma_stored2(plan, base, tensors, 8, 1024, 4096);
        lemma_stored1(plan, base, tensors, 9, 1024);
        lemma_stored1(plan, base, tensors, 10, 1024);
    }
}

proof fn lemma_codec_lens(n: nat)
    ensures
        rest_codebook_tensors(n).len() == 2 * n,
        transformer_tensors(n).len() == 11 * n,
        upsample_tensors(n).len() == 11 * n,
    decreases n,
{
    if n > 0 {
        lemma_codec_lens((n - 1) as nat);
    }
}

proof fn lemma_codebook(plan: Plan, base: int, n: nat, i: int)
    requires
        0 <= i < n,
        stores(plan, base, rest_codebook_tensors(n)),
    ensures
        (base + 2 * i) as usize == base + 2 * i,
        holds(plan, (base + 2 * i) as usize, 524288),
    decreases n,
{
    let m = (n - 1) as nat;
    let b = codebook_tensors("decoder.quantizer.rvq_rest.vq.layers."@ + decimal(m));
    lemma_codec_lens(m);
    lemma_stores_split(plan, base, rest_codebook_tensors(m), b);
    if i == m {
        lemma_stored2(plan, base + 2 * m, b, 0, 2048, 256);
    } else {
        lemma_codebook(plan, base, m, i);
    }
}

proof fn lemma_transformer_layer(plan: Plan, base: int, n: nat, i: int)
    requires
        0 <= i < n,
        stores(plan, base, transformer_tensors(n)),
    ensures
        CodecTransformerLayer::at(base + 11 * i).fits(plan),
    decreases n,
{
    let m = (n - 1) as nat;
    let name = "decoder.pre_transformer.layers."@ + decimal(m);
    lemma_codec_lens(m);
    lemma_stores_split(
        plan,
        base,
        transformer_tensors(m),
        codec_transformer_layer_tensors(name),
    );
    if i == m {
        CodecTransformerLayer::law_loaded_weights_fit(plan, base + 11 * m, name);
    } else {
        lemma_transformer_layer(plan, base, m, i);
    }
}

proof fn lemma_upsample_stage(plan: Plan, base: int, n: nat, i: int)
    requires
        0 <= i < n,
        stores(plan, base, upsample_tensors(n)),
    ensures
        CodecUpsampleStage::at(base + 11 * i).fits(plan),
    decreases n,
{
    let m = (n - 1) as nat;
    let name = "decoder.upsample."@ + decimal(m);
    lemma_codec_lens(m);
    lemma_stores_split(plan, base, upsample_tensors(m), codec_upsample_stage_tensors(name));
    if i == m {
        CodecUpsampleStage::law_loaded_weights_fit(plan, base + 11 * m, name);
    } else {
        lemma_upsample_stage(plan, base, m, i);
    }
}

impl CodecQuantizer {
    /// Loaded weights exist at their full size.
    pub proof fn law_loaded_weights_fit(self, plan: Plan, base: int)
        requires
            stores(plan, base, codec_tensors()),
            self.is_at(base),
        ensures
            self.fits(plan),
    {
        lemma_codec_lens(15);
        lemma_codec_lens(8);
        lemma_codec_lens(2);
        let t0 = codebook_tensors("decoder.quantizer.rvq_first.vq.layers.0"@);
        let p1 = rest_codebook_tensors(15);
        let t1 = t0 + p1;
        let t2 = codec_tensors().subrange(0, 36);
        let p2 = codec_tensors().subrange(32, 36);
        let p3 = transformer_tensors(8);
        let t3 = t2 + p3;
        let p4 = upsample_tensors(2);
        let t4 = t3 + p4;
        let p5 = codec_tensors().subrange(146, 151);
        assert(codec_tensors() =~= t4 + p5);
        assert(t2 =~= t1 + p2);
        lemma_stores_split(plan, base, t4, p5);
        lemma_stores_split(plan, base, t3, p4);
        lemma_stores_split(plan, base, t2, p3);
        lemma_stores_split(plan, base, t1, p2);
        lemma_stores_split(plan, base, t0, p1);
        lemma_stored2(plan, base, t0, 0, 2048, 256);
        lemma_stored3(plan, base + 32, p2, 0, 1024, 512, 3);
        lemma_stored1(plan, base + 32, p2, 1, 1024);
        lemma_stored2(plan, base + 32, p2, 2, 512, 1024);
        lemma_stored1(plan, base + 32, p2, 3, 512);
        lemma_stored3(plan, base + 146, p5, 0, 512, 256, 1);
        lemma_stored3(plan, base + 146, p5, 1, 512, 256, 1);
        lemma_stored1(plan, base + 146, p5, 2, 512);
        lemma_stored2(plan, base + 146, p5, 3, 1024, 512);
        lemma_stored1(plan, base + 146, p5, 4, 1024);
        assert forall|i: int| 0 <= i < 15 implies holds(
            plan,
            #[trigger] self.rest_codebooks@[i],
            524288,
        ) by {
            lemma_codebook(plan, base + 2, 15, i);
        }
        assert forall|i: int| 0 <= i < self.transformer_layers@.len() implies (
        #[trigger] self.transformer_layers@[i]).fits(plan) by {
            lemma_transformer_layer(plan, base + 36, 8, i);
        }
        assert forall|i: int| 0 <= i < self.upsample_stages@.len() implies (
        #[trigger] self.upsample_stages@[i]).fits(plan) by {
            lemma_upsample_stage(plan, base + 124, 2, i);
        }
    }
}

} // verus!
