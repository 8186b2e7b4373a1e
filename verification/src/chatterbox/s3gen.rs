//! The S3 token encoder: speech tokens to the input of the flow network.
use vstd::prelude::*;
use vstd::string::*;
use crate::device::{EPS_1E12, EPS_1E5, Plan, Scalar, Term, extends, holds, sized};
use crate::device::compound::{linear, only_changes, run_linear};
use crate::device::value::{
    add_inplace_f32_f16, conv1d_padded_f16, copy_f16_to_f32, copy_f32_to_f16,
    gather_rows_f16, layer_norm_f32in, leaky_relu_f16, matmul_f16, mha_relative_full,
    repeat_interleave_f16, scale_f16, silu_act_f16, transpose_f16,
};
use crate::text::{decimal, to_decimal};
use crate::weights::{
    Complaint, Loader, Tensor, got, labelled, lemma_stored1, lemma_stored2, lemma_stored3, stores,
};

verus! {

pub const S3_HIDDEN_SIZE: usize = 512;

pub const S3_INTERMEDIATE_SIZE: usize = 2_048;

pub const S3_ATTENTION_HEADS: usize = 8;

pub const S3_HEAD_DIM: usize = 64;

pub const S3_VOCAB_SIZE: usize = 6_561;

pub const S3_MEL_BINS: usize = 80;

/// The square root of 512 in single precision.
pub const SQRT_512: u32 = 0x41b5_04f3;

/// 0.01 in single precision.
pub const SLOPE_001: u32 = 0x3c23_d70a;

/// One conformer block of the token encoder, as buffers.
#[derive(Clone, Copy, Debug, PartialEq, Eq, Structural)]
pub struct ChatterboxS3ConformerLayer {
    pub norm_mha_weight: usize,
    pub norm_mha_bias: usize,
    pub q_weight: usize,
    pub q_bias: usize,
    pub k_weight: usize,
    pub k_bias: usize,
    pub v_weight: usize,
    pub v_bias: usize,
    pub pos_weight: usize,
    pub pos_bias_u: usize,
    pub pos_bias_v: usize,
    pub out_weight: usize,
    pub out_bias: usize,
    pub norm_ff_weight: usize,
    pub norm_ff_bias: usize,
    pub ff1_weight: usize,
    pub ff1_bias: usize,
    pub ff2_weight: usize,
    pub ff2_bias: usize,
}

/// The tensors of a [`ChatterboxS3ConformerLayer`] in loading order.
pub open spec fn conformer_tensors(prefix: Seq<char>) -> Seq<Tensor> {
    seq![
        labelled("Chatterbox S3Gen "@, prefix + ".norm_mha.weight"@, seq![512]),
        labelled("Chatterbox S3Gen "@, prefix + ".norm_mha.bias"@, seq![512]),
        labelled("Chatterbox S3Gen "@, prefix + ".self_attn.linear_q.weight"@, seq![512, 512]),
        labelled("Chatterbox S3Gen "@, prefix + ".self_attn.linear_q.bias"@, seq![512]),
        labelled("Chatterbox S3Gen "@, prefix + ".self_attn.linear_k.weight"@, seq![512, 512]),
        labelled("Chatterbox S3Gen "@, prefix + ".self_attn.linear_k.bias"@, seq![512]),
        labelled("Chatterbox S3Gen "@, prefix + ".self_attn.linear_v.weight"@, seq![512, 512]),
        labelled("Chatterbox S3Gen "@, prefix + ".self_attn.linear_v.bias"@, seq![512]),
        labelled("Chatterbox S3Gen "@, prefix + ".self_attn.linear_pos.weight"@, seq![512, 512]),
        labelled("Chatterbox S3Gen "@, prefix + ".self_attn.pos_bias_u"@, seq![8, 64]),
        labelled("Chatterbox S3Gen "@, prefix + ".self_attn.pos_bias_v"@, seq![8, 64]),
        labelled("Chatterbox S3Gen "@, prefix + ".self_attn.linear_out.weight"@, seq![512, 512]),
        labelled("Chatterbox S3Gen "@, prefix + ".self_attn.linear_out.bias"@, seq![512]),
        labelled("Chatterbox S3Gen "@, prefix + ".norm_ff.weight"@, seq![512]),
        labelled("Chatterbox S3Gen "@, prefix + ".norm_ff.bias"@, seq![512]),
        labelled("Chatterbox S3Gen "@, prefix + ".feed_forward.w_1.weight"@, seq![2048, 512]),
        labelled("Chatterbox S3Gen "@, prefix + ".feed_forward.w_1.bias"@, seq![2048]),
        labelled("Chatterbox S3Gen "@, prefix + ".feed_forward.w_2.weight"@, seq![512, 2048]),
        labelled("Chatterbox S3Gen "@, prefix + ".feed_forward.w_2.bias"@, seq![512]),
    ]
}

impl ChatterboxS3ConformerLayer {
    /// The buffers that start at `base`.
    pub open spec fn at(base: int) -> Self {
        ChatterboxS3ConformerLayer {
            norm_mha_weight: base as usize,
            norm_mha_bias: (base + 1) as usize,
            q_weight: (base + 2) as usize,
            q_bias: (base + 3) as usize,
            k_weight: (base + 4) as usize,
            k_bias: (base + 5) as usize,
            v_weight: (base + 6) as usize,
            v_bias: (base + 7) as usize,
            pos_weight: (base + 8) as usize,
            pos_bias_u: (base + 9) as usize,
            pos_bias_v: (base + 10) as usize,
            out_weight: (base + 11) as usize,
            out_bias: (base + 12) as usize,
            norm_ff_weight: (base + 13) as usize,
            norm_ff_bias: (base + 14) as usize,
            ff1_weight: (base + 15) as usize,
            ff1_bias: (base + 16) as usize,
            ff2_weight: (base + 17) as usize,
            ff2_bias: (base + 18) as usize,
        }
    }

    /// The weights exist at their full size.
    pub open spec fn fits(self, plan: Plan) -> bool {
        &&& holds(plan, self.norm_mha_weight, 512)
        &&& holds(plan, self.norm_mha_bias, 512)
        &&& holds(plan, self.q_weight, 262144)
        &&& holds(plan, self.q_bias, 512)
        &&& holds(plan, self.k_weight, 262144)
        &&& holds(plan, self.k_bias, 512)
        &&& holds(plan, self.v_weight, 262144)
        &&& holds(plan, self.v_bias, 512)
        &&& holds(plan, self.pos_weight, 262144)
        &&& holds(plan, self.pos_bias_u, 512)
        &&& holds(plan, self.pos_bias_v, 512)
        &&& holds(plan, self.out_weight, 262144)
        &&& holds(plan, self.out_bias, 512)
        &&& holds(plan, self.norm_ff_weight, 512)
        &&& holds(plan, self.norm_ff_bias, 512)
        &&& holds(plan, self.ff1_weight, 1048576)
        &&& holds(plan, self.ff1_bias, 2048)
        &&& holds(plan, self.ff2_weight, 1048576)
        &&& holds(plan, self.ff2_bias, 512)
    }

    /// Requires the tensors.
    fn load_prefix(loader: &mut Loader, prefix: &str) -> (weights: Self)
        requires
            old(loader).wf(),
        ensures
            final(loader).wf(),
            weights == Self::at(old(loader).tensors().len() as int),
            final(loader).tensors() == old(loader).tensors() + conformer_tensors(prefix@),
    {
        let norm_mha_weight: usize = loader.labelled_vector("Chatterbox S3Gen ", prefix, ".norm_mha.weight", 512);
        let norm_mha_bias: usize = loader.labelled_vector("Chatterbox S3Gen ", prefix, ".norm_mha.bias", 512);
        let q_weight: usize = loader.labelled_matrix("Chatterbox S3Gen ", prefix, ".self_attn.linear_q.weight", 512, 512);
        let q_bias: usize = loader.labelled_vector("Chatterbox S3Gen ", prefix, ".self_attn.linear_q.bias", 512);
        let k_weight: usize = loader.labelled_matrix("Chatterbox S3Gen ", prefix, ".self_attn.linear_k.weight", 512, 512);
        let k_bias: usize = loader.labelled_vector("Chatterbox S3Gen ", prefix, ".self_attn.linear_k.bias", 512);
        let v_weight: usize = loader.labelled_matrix("Chatterbox S3Gen ", prefix, ".self_attn.linear_v.weight", 512, 512);
        let v_bias: usize = loader.labelled_vector("Chatterbox S3Gen ", prefix, ".self_attn.linear_v.bias", 512);
        let pos_weight: usize = loader.labelled_matrix("Chatterbox S3Gen ", prefix, ".self_attn.linear_pos.weight", 512, 512);
        let pos_bias_u: usize = loader.labelled_matrix("Chatterbox S3Gen ", prefix, ".self_attn.pos_bias_u", 8, 64);
        let pos_bias_v: usize = loader.labelled_matrix("Chatterbox S3Gen ", prefix, ".self_attn.pos_bias_v", 8, 64);
        let out_weight: usize = loader.labelled_matrix("Chatterbox S3Gen ", prefix, ".self_attn.linear_out.weight", 512, 512);
        let out_bias: usize = loader.labelled_vector("Chatterbox S3Gen ", prefix, ".self_attn.linear_out.bias", 512);
        let norm_ff_weight: usize = loader.labelled_vector("Chatterbox S3Gen ", prefix, ".norm_ff.weight", 512);
        let norm_ff_bias: usize = loader.labelled_vector("Chatterbox S3Gen ", prefix, ".norm_ff.bias", 512);
        let ff1_weight: usize = loader.labelled_matrix("Chatterbox S3Gen ", prefix, ".feed_forward.w_1.weight", 2048, 512);
        let ff1_bias: usize = loader.labelled_vector("Chatterbox S3Gen ", prefix, ".feed_forward.w_1.bias", 2048);
        let ff2_weight: usize = loader.labelled_matrix("Chatterbox S3Gen ", prefix, ".feed_forward.w_2.weight", 512, 2048);
        let ff2_bias: usize = loader.labelled_vector("Chatterbox S3Gen ", prefix, ".feed_forward.w_2.bias", 512);
        assert(loader.tensors() =~= old(loader).tensors() + conformer_tensors(prefix@));
        ChatterboxS3ConformerLayer { norm_mha_weight, norm_mha_bias, q_weight, q_bias, k_weight, k_bias, v_weight, v_bias, pos_weight, pos_bias_u, pos_bias_v, out_weight, out_bias, norm_ff_weight, norm_ff_bias, ff1_weight, ff1_bias, ff2_weight, ff2_bias }
    }
}

/// The embedding and lookahead of the token encoder, as buffers.
#[derive(Clone, Copy, Debug, PartialEq, Eq, Structural)]
pub struct S3Input {
    pub token_embedding: usize,
    pub input_weight: usize,
    pub input_bias: usize,
    pub input_norm_weight: usize,
    pub input_norm_bias: usize,
    pub lookahead1_weight: usize,
    pub lookahead1_bias: usize,
    pub lookahead2_weight: usize,
    pub lookahead2_bias: usize,
}

/// The tensors of a [`S3Input`] in loading order.
pub open spec fn s3_input_tensors() -> Seq<Tensor> {
    seq![
        got("flow.input_embedding.weight"@, seq![6561, 512]),
        got("flow.encoder.embed.out.0.weight"@, seq![512, 512]),
        got("flow.encoder.embed.out.0.bias"@, seq![512]),
        got("flow.encoder.embed.out.1.weight"@, seq![512]),
        got("flow.encoder.embed.out.1.bias"@, seq![512]),
        got("flow.encoder.pre_lookahead_layer.conv1.weight"@, seq![512, 512, 4]),
        got("flow.encoder.pre_lookahead_layer.conv1.bias"@, seq![512]),
        got("flow.encoder.pre_lookahead_layer.conv2.weight"@, seq![512, 512, 3]),
        got("flow.encoder.pre_lookahead_layer.conv2.bias"@, seq![512]),
    ]
}

impl S3Input {
    /// The buffers that start at `base`.
    pub open spec fn at(base: int) -> Self {
        S3Input {
            token_embedding: base as usize,
            input_weight: (base + 1) as usize,
            input_bias: (base + 2) as usize,
            input_norm_weight: (base + 3) as usize,
            input_norm_bias: (base + 4) as usize,
            lookahead1_weight: (base + 5) as usize,
            lookahead1_bias: (base + 6) as usize,
            lookahead2_weight: (base + 7) as usize,
            lookahead2_bias: (base + 8) as usize,
        }
    }

    /// The weights exist at their full size.
    pub open spec fn fits(self, plan: Plan) -> bool {
        &&& holds(plan, self.token_embedding, 3359232)
        &&& holds(plan, self.input_weight, 262144)
        &&& holds(plan, self.input_bias, 512)
        &&& holds(plan, self.input_norm_weight, 512)
        &&& holds(plan, self.input_norm_bias, 512)
        &&& holds(plan, self.lookahead1_weight, 1048576)
        &&& holds(plan, self.lookahead1_bias, 512)
        &&& holds(plan, self.lookahead2_weight, 786432)
        &&& holds(plan, self.lookahead2_bias, 512)
    }

    /// Requires the tensors.
    pub fn load(loader: &mut Loader) -> (weights: Self)
        requires
            old(loader).wf(),
        ensures
            final(loader).wf(),
            weights == Self::at(old(loader).tensors().len() as int),
            final(loader).tensors() == old(loader).tensors() + s3_input_tensors(),
    {
        let token_embedding: usize = loader.matrix("flow.input_embedding.weight".to_owned(), 6561, 512, Complaint::got());
        let input_weight: usize = loader.matrix("flow.encoder.embed.out.0.weight".to_owned(), 512, 512, Complaint::got());
        let input_bias: usize = loader.vector("flow.encoder.embed.out.0.bias".to_owned(), 512, Complaint::got());
        let input_norm_weight: usize = loader.vector("flow.encoder.embed.out.1.weight".to_owned(), 512, Complaint::got());
        let input_norm_bias: usize = loader.vector("flow.encoder.embed.out.1.bias".to_owned(), 512, Complaint::got());
        let lookahead1_weight: usize = loader.cube("flow.encoder.pre_lookahead_layer.conv1.weight".to_owned(), 512, 512, 4, Complaint::got());
        let lookahead1_bias: usize = loader.vector("flow.encoder.pre_lookahead_layer.conv1.bias".to_owned(), 512, Complaint::got());
        let lookahead2_weight: usize = loader.cube("flow.encoder.pre_lookahead_layer.conv2.weight".to_owned(), 512, 512, 3, Complaint::got());
        let lookahead2_bias: usize = loader.vector("flow.encoder.pre_lookahead_layer.conv2.bias".to_owned(), 512, Complaint::got());
        assert(loader.tensors() =~= old(loader).tensors() + s3_input_tensors());
        S3Input { token_embedding, input_weight, input_bias, input_norm_weight, input_norm_bias, lookahead1_weight, lookahead1_bias, lookahead2_weight, lookahead2_bias }
    }
}

/// The doubling of the token encoder, as buffers.
#[derive(Clone, Copy, Debug, PartialEq, Eq, Structural)]
pub struct S3Upsample {
    pub upsample_weight: usize,
    pub upsample_bias: usize,
    pub input_weight: usize,
    pub input_bias: usize,
    pub input_norm_weight: usize,
    pub input_norm_bias: usize,
}

/// The tensors of a [`S3Upsample`] in loading order.
pub open spec fn s3_upsample_tensors() -> Seq<Tensor> {
    seq![
        got("flow.encoder.up_layer.conv.weight"@, seq![512, 512, 5]),
        got("flow.encoder.up_layer.conv.bias"@, seq![512]),
        got("flow.encoder.up_embed.out.0.weight"@, seq![512, 512]),
        got("flow.encoder.up_embed.out.0.bias"@, seq![512]),
        got("flow.encoder.up_embed.out.1.weight"@, seq![512]),
        got("flow.encoder.up_embed.out.1.bias"@, seq![512]),
    ]
}

impl S3Upsample {
    /// The buffers that start at `base`.
    pub open spec fn at(base: int) -> Self {
        S3Upsample {
            upsample_weight: base as usize,
            upsample_bias: (base + 1) as usize,
            input_weight: (base + 2) as usize,
            input_bias: (base + 3) as usize,
            input_norm_weight: (base + 4) as usize,
            input_norm_bias: (base + 5) as usize,
        }
    }

    /// The weights exist at their full size.
    pub open spec fn fits(self, plan: Plan) -> bool {
        &&& holds(plan, self.upsample_weight, 1310720)
        &&& holds(plan, self.upsample_bias, 512)
        &&& holds(plan, self.input_weight, 262144)
        &&& holds(plan, self.input_bias, 512)
        &&& holds(plan, self.input_norm_weight, 512)
        &&& holds(plan, self.input_norm_bias, 512)
    }

    /// Requires the tensors.
    pub fn load(loader: &mut Loader) -> (weights: Self)
        requires
            old(loader).wf(),
        ensures
            final(loader).wf(),
            weights == Self::at(old(loader).tensors().len() as int),
            final(loader).tensors() == old(loader).tensors() + s3_upsample_tensors(),
    {
        let upsample_weight: usize = loader.cube("flow.encoder.up_layer.conv.weight".to_owned(), 512, 512, 5, Complaint::got());
        let upsample_bias: usize = loader.vector("flow.encoder.up_layer.conv.bias".to_owned(), 512, Complaint::got());
        let input_weight: usize = loader.matrix("flow.encoder.up_embed.out.0.weight".to_owned(), 512, 512, Complaint::got());
        let input_bias: usize = loader.vector("flow.encoder.up_embed.out.0.bias".to_owned(), 512, Complaint::got());
        let input_norm_weight: usize = loader.vector("flow.encoder.up_embed.out.1.weight".to_owned(), 512, Complaint::got());
        let input_norm_bias: usize = loader.vector("flow.encoder.up_embed.out.1.bias".to_owned(), 512, Complaint::got());
        assert(loader.tensors() =~= old(loader).tensors() + s3_upsample_tensors());
        S3Upsample { upsample_weight, upsample_bias, input_weight, input_bias, input_norm_weight, input_norm_bias }
    }
}

/// The output of the token encoder, as buffers.
#[derive(Clone, Copy, Debug, PartialEq, Eq, Structural)]
pub struct S3Output {
    pub final_norm_weight: usize,
    pub final_norm_bias: usize,
    pub projection_weight: usize,
    pub projection_bias: usize,
}

/// The tensors of a [`S3Output`] in loading order.
pub open spec fn s3_output_tensors() -> Seq<Tensor> {
    seq![
        got("flow.encoder.after_norm.weight"@, seq![512]),
        got("flow.encoder.after_norm.bias"@, seq![512]),
        got("flow.encoder_proj.weight"@, seq![80, 512]),
        got("flow.encoder_proj.bias"@, seq![80]),
    ]
}

impl S3Output {
    /// The buffers that start at `base`.
    pub open spec fn at(base: int) -> Self {
        S3Output {
            final_norm_weight: base as usize,
            final_norm_bias: (base + 1) as usize,
            projection_weight: (base + 2) as usize,
            projection_bias: (base + 3) as usize,
        }
    }

    /// The weights exist at their full size.
    pub open spec fn fits(self, plan: Plan) -> bool {
        &&& holds(plan, self.final_norm_weight, 512)
        &&& holds(plan, self.final_norm_bias, 512)
        &&& holds(plan, self.projection_weight, 40960)
        &&& holds(plan, self.projection_bias, 80)
    }

    /// Requires the tensors.
    pub fn load(loader: &mut Loader) -> (weights: Self)
        requires
            old(loader).wf(),
        ensures
            final(loader).wf(),
            weights == Self::at(old(loader).tensors().len() as int),
            final(loader).tensors() == old(loader).tensors() + s3_output_tensors(),
    {
        let final_norm_weight: usize = loader.vector("flow.encoder.after_norm.weight".to_owned(), 512, Complaint::got());
        let final_norm_bias: usize = loader.vector("flow.encoder.after_norm.bias".to_owned(), 512, Complaint::got());
        let projection_weight: usize = loader.matrix("flow.encoder_proj.weight".to_owned(), 80, 512, Complaint::got());
        let projection_bias: usize = loader.vector("flow.encoder_proj.bias".to_owned(), 80, Complaint::got());
        assert(loader.tensors() =~= old(loader).tensors() + s3_output_tensors());
        S3Output { final_norm_weight, final_norm_bias, projection_weight, projection_bias }
    }
}

/// The weights of the token encoder, as buffers.
pub struct ChatterboxS3Encoder {
    pub input: S3Input,
    pub layers: Vec<ChatterboxS3ConformerLayer>,
    pub up: S3Upsample,
    pub up_layers: Vec<ChatterboxS3ConformerLayer>,
    pub output: S3Output,
}

/// The name of a group of conformer layers.
pub open spec fn conformer_group(upsampled: bool) -> Seq<char> {
    if upsampled {
        "flow.encoder.up_encoders"@
    } else {
        "flow.encoder.encoders"@
    }
}

/// How many conformer layers a group has.
pub open spec fn conformer_limit(upsampled: bool) -> nat {
    if upsampled {
        4
    } else {
        6
    }
}

/// The tensors of the first `n` conformer layers of a group.
pub open spec fn conformers_tensors(upsampled: bool, n: nat) -> Seq<Tensor>
    decreases n,
{
    if n == 0 {
        seq![]
    } else {
        conformers_tensors(upsampled, (n - 1) as nat) + conformer_tensors(
            conformer_group(upsampled) + "."@ + decimal((n - 1) as nat),
        )
    }
}

/// Relative attention added to the stream.
pub open spec fn conformer_attended(
    w: ChatterboxS3ConformerLayer,
    plan: Plan,
    x: Term,
    positions: Term,
    len: u32,
) -> Term {
    let v = plan.values();
    let normed = layer_norm_f32in(
        x,
        v[w.norm_mha_weight as int],
        v[w.norm_mha_bias as int],
        len,
        512,
        Scalar::Single(EPS_1E12),
    );
    let out = mha_relative_full(
        linear(normed, v[w.q_weight as int], v[w.q_bias as int], len, 512, 512),
        linear(normed, v[w.k_weight as int], v[w.k_bias as int], len, 512, 512),
        linear(normed, v[w.v_weight as int], v[w.v_bias as int], len, 512, 512),
        matmul_f16(positions, v[w.pos_weight as int], (2 * len - 1) as u32, 512, 512),
        v[w.pos_bias_u as int],
        v[w.pos_bias_v as int],
        64,
        8,
        len,
    );
    add_inplace_f32_f16(
        x,
        linear(out, v[w.out_weight as int], v[w.out_bias as int], len, 512, 512),
        (512 * len) as u32,
    )
}

/// A SiLU network added to the stream.
pub open spec fn conformer_fed_forward(
    w: ChatterboxS3ConformerLayer,
    plan: Plan,
    x: Term,
    len: u32,
) -> Term {
    let v = plan.values();
    let normed = layer_norm_f32in(
        x,
        v[w.norm_ff_weight as int],
        v[w.norm_ff_bias as int],
        len,
        512,
        Scalar::Single(EPS_1E12),
    );
    let inner = linear(normed, v[w.ff1_weight as int], v[w.ff1_bias as int], len, 2048, 512);
    add_inplace_f32_f16(
        x,
        linear(
            silu_act_f16(inner, (2048 * len) as u32),
            v[w.ff2_weight as int],
            v[w.ff2_bias as int],
            len,
            512,
            2048,
        ),
        (512 * len) as u32,
    )
}

/// A whole conformer block.
#[verifier::opaque]
pub open spec fn conformer(
    w: ChatterboxS3ConformerLayer,
    plan: Plan,
    x: Term,
    positions: Term,
    len: u32,
) -> Term {
    conformer_fed_forward(w, plan, conformer_attended(w, plan, x, positions, len), len)
}

/// The stream after the first `n` conformer layers.
pub open spec fn conformers(
    layers: Seq<ChatterboxS3ConformerLayer>,
    plan: Plan,
    x: Term,
    positions: Term,
    len: u32,
    n: nat,
) -> Term
    decreases n,
{
    if n == 0 {
        x
    } else {
        conformer(
            layers[n - 1],
            plan,
            conformers(layers, plan, x, positions, len, (n - 1) as nat),
            positions,
            len,
        )
    }
}

impl ChatterboxS3ConformerLayer {
    /// Requires the weights of a conformer layer.
    pub fn load(loader: &mut Loader, upsampled: bool, layer_index: usize) -> (outcome: Result<
        Self,
        String,
    >)
        requires
            old(loader).wf(),
        ensures
            final(loader).wf(),
            match outcome {
                Err(message) => {
                    &&& layer_index >= conformer_limit(upsampled)
                    &&& message@ == "S3Gen Conformer layer "@ + decimal(layer_index as nat)
                        + " is outside 0.."@ + decimal(conformer_limit(upsampled))
                    &&& *final(loader) == *old(loader)
                },
                Ok(layer) => {
                    &&& layer_index < conformer_limit(upsampled)
                    &&& layer == Self::at(old(loader).tensors().len() as int)
                    &&& final(loader).tensors() == old(loader).tensors() + conformer_tensors(
                        conformer_group(upsampled) + "."@ + decimal(layer_index as nat),
                    )
                },
            },
    {
        let limit: usize = if upsampled {
            4
        } else {
            6
        };
        if layer_index >= limit {
            return Err(
                "S3Gen Conformer layer ".to_owned().concat(&to_decimal(layer_index as u64)).concat(
                    " is outside 0..",
                ).concat(&to_decimal(limit as u64)),
            );
        }
        let group = if upsampled {
            "flow.encoder.up_encoders"
        } else {
            "flow.encoder.encoders"
        };
        let prefix = group.to_owned().concat(".").concat(&to_decimal(layer_index as u64));
        Ok(Self::load_prefix(loader, prefix.as_str()))
    }

    /// Adds the attention of this layer to the stream in `hidden`.
    fn attend(
        &self,
        plan: &mut Plan,
        hidden: usize,
        positions: usize,
        seq_len: usize,
        Ghost(start): Ghost<Plan>,
    )
        requires
            old(plan).wf(),
            extends(start, *old(plan)),
            self.fits(start),
            start.values().len() <= hidden,
            positions != hidden,
            0 < seq_len,
            2048 * seq_len <= u32::MAX,
            holds(*old(plan), hidden, 512 * seq_len),
            holds(*old(plan), positions, 512 * (2 * seq_len - 1)),
        ensures
            final(plan).wf(),
            final(plan).values().len() == old(plan).values().len() + 7,
            only_changes(*old(plan), *final(plan), hidden),
            final(plan).values()[hidden as int] == conformer_attended(
                *self,
                start,
                old(plan).values()[hidden as int],
                old(plan).values()[positions as int],
                seq_len as u32,
            ),
    {
        let len: u32 = seq_len as u32;
        let elements: usize = seq_len * 512;
        let norm: usize = plan.zeros(elements);
        plan.layer_norm_f32in(
            hidden,
            self.norm_mha_weight,
            self.norm_mha_bias,
            norm,
            len,
            512,
            Scalar::Single(EPS_1E12),
        );
        let q: usize = run_linear(plan, norm, self.q_weight, self.q_bias, len, 512, 512);
        let k: usize = run_linear(plan, norm, self.k_weight, self.k_bias, len, 512, 512);
        let v: usize = run_linear(plan, norm, self.v_weight, self.v_bias, len, 512, 512);
        let pos: usize = plan.zeros((2 * seq_len - 1) * 512);
        plan.matmul_f16(positions, self.pos_weight, pos, (2 * seq_len - 1) as u32, 512, 512);
        let attention: usize = plan.zeros(elements);
        plan.mha_relative_full(
            q,
            k,
            v,
            pos,
            self.pos_bias_u,
            self.pos_bias_v,
            attention,
            64,
            8,
            len,
        );
        let out: usize = run_linear(plan, attention, self.out_weight, self.out_bias, len, 512, 512);
        plan.add_inplace_f32_f16(hidden, out, 512 * len);
    }

    /// Adds the feed-forward network of this layer to the stream in `hidden`.
    fn feed_forward(
        &self,
        plan: &mut Plan,
        hidden: usize,
        seq_len: usize,
        Ghost(start): Ghost<Plan>,
    )
        requires
            old(plan).wf(),
            extends(start, *old(plan)),
            self.fits(start),
            start.values().len() <= hidden,
            2048 * seq_len <= u32::MAX,
            holds(*old(plan), hidden, 512 * seq_len),
        ensures
            final(plan).wf(),
            final(plan).values().len() == old(plan).values().len() + 4,
            only_changes(*old(plan), *final(plan), hidden),
            final(plan).values()[hidden as int] == conformer_fed_forward(
                *self,
                start,
                old(plan).values()[hidden as int],
                seq_len as u32,
            ),
    {
        let len: u32 = seq_len as u32;
        let norm: usize = plan.zeros(seq_len * 512);
        plan.layer_norm_f32in(
            hidden,
            self.norm_ff_weight,
            self.norm_ff_bias,
            norm,
            len,
            512,
            Scalar::Single(EPS_1E12),
        );
        let ff1: usize = run_linear(plan, norm, self.ff1_weight, self.ff1_bias, len, 2048, 512);
        let activated: usize = plan.zeros(seq_len * 2048);
        plan.silu_act_f16(ff1, activated, 2048 * len);
        let ff2: usize = run_linear(plan, activated, self.ff2_weight, self.ff2_bias, len, 512, 2048);
        plan.add_inplace_f32_f16(hidden, ff2, 512 * len);
    }

    /// Runs the block over `seq_len` frames in `hidden`. `positions` holds the
    /// relative position embeddings, from `seq_len - 1` down to its negative.
    pub(crate) fn forward_device(
        &self,
        plan: &mut Plan,
        hidden: usize,
        positions: usize,
        seq_len: usize,
        Ghost(start): Ghost<Plan>,
    )
        requires
            old(plan).wf(),
            extends(start, *old(plan)),
            self.fits(start),
            start.values().len() <= hidden,
            positions != hidden,
            0 < seq_len,
            2048 * seq_len <= u32::MAX,
            holds(*old(plan), hidden, 512 * seq_len),
            holds(*old(plan), positions, 512 * (2 * seq_len - 1)),
        ensures
            final(plan).wf(),
            final(plan).values().len() == old(plan).values().len() + 11,
            only_changes(*old(plan), *final(plan), hidden),
            final(plan).values()[hidden as int] == conformer(
                *self,
                start,
                old(plan).values()[hidden as int],
                old(plan).values()[positions as int],
                seq_len as u32,
            ),
    {
        proof {
            reveal(conformer);
        }
        self.attend(plan, hidden, positions, seq_len, Ghost(start));
        self.feed_forward(plan, hidden, seq_len, Ghost(start));
    }

    /// Runs the block over `seq_len` frames from the host. The states become a
    /// given buffer, which also holds the result; `positions` is a buffer of
    /// relative position embeddings.
    pub fn forward(&self, plan: &mut Plan, hidden_len: usize, positions: usize, seq_len: usize) -> (
    outcome: Result<usize, String>)
        requires
            old(plan).wf(),
            self.fits(*old(plan)),
            512 * seq_len <= usize::MAX,
            hidden_len == 512 * seq_len && seq_len > 0 ==> 2048 * seq_len <= u32::MAX && holds(
                *old(plan),
                positions,
                512 * (2 * seq_len - 1),
            ),
        ensures
            final(plan).wf(),
            match outcome {
                Err(message) => {
                    &&& *final(plan) == *old(plan)
                    &&& if seq_len == 0 {
                        message@ == "S3Gen sequence must be non-empty"@
                    } else {
                        hidden_len != 512 * seq_len && message@ == "S3Gen input has "@ + decimal(
                            hidden_len as nat,
                        ) + " values, expected "@ + decimal((512 * seq_len) as nat)
                    }
                },
                Ok(output) => {
                    &&& seq_len > 0
                    &&& hidden_len == 512 * seq_len
                    &&& extends(*old(plan), *final(plan))
                    &&& sized(*final(plan), output, 512 * seq_len)
                    &&& final(plan).values()[output as int] == conformer(
                        *self,
                        *old(plan),
                        Term::Given(old(plan).steps().len()),
                        old(plan).values()[positions as int],
                        seq_len as u32,
                    )
                },
            },
    {
        if seq_len == 0 {
            return Err("S3Gen sequence must be non-empty".to_owned());
        }
        if hidden_len != seq_len * 512 {
            return Err(
                "S3Gen input has ".to_owned().concat(&to_decimal(hidden_len as u64)).concat(
                    " values, expected ",
                ).concat(&to_decimal((seq_len * 512) as u64)),
            );
        }
        let ghost start = *plan;
        let hidden: usize = plan.given(hidden_len);
        self.forward_device(plan, hidden, positions, seq_len, Ghost(start));
        Ok(hidden)
    }
}

/// Loads a group of conformer layers.
fn load_conformers(loader: &mut Loader, upsampled: bool) -> (layers: Vec<ChatterboxS3ConformerLayer>)
    requires
        old(loader).wf(),
    ensures
        final(loader).wf(),
        layers@.len() == conformer_limit(upsampled),
        forall|i: int|
            0 <= i < layers@.len() ==> #[trigger] layers@[i] == ChatterboxS3ConformerLayer::at(
                old(loader).tensors().len() + 19 * i,
            ),
        final(loader).tensors() == old(loader).tensors() + conformers_tensors(
            upsampled,
            conformer_limit(upsampled),
        ),
        final(loader).tensors().len() == old(loader).tensors().len() + 19 * conformer_limit(
            upsampled,
        ),
{
    let ghost start = loader.tensors();
    let mut layers: Vec<ChatterboxS3ConformerLayer> = Vec::new();
    let limit: usize = if upsampled {
        4
    } else {
        6
    };
    let group = if upsampled {
        "flow.encoder.up_encoders"
    } else {
        "flow.encoder.encoders"
    };
    assert(start + conformers_tensors(upsampled, 0) =~= start);
    for i in 0..limit
        invariant
            loader.wf(),
            group@ == conformer_group(upsampled),
            layers@.len() == i,
            forall|j: int|
                0 <= j < i ==> #[trigger] layers@[j] == ChatterboxS3ConformerLayer::at(
                    start.len() + 19 * j,
                ),
            loader.tensors() == start + conformers_tensors(upsampled, i as nat),
            loader.tensors().len() == start.len() + 19 * i,
    {
        let prefix = group.to_owned().concat(".").concat(&to_decimal(i as u64));
        let layer = ChatterboxS3ConformerLayer::load_prefix(loader, prefix.as_str());
        layers.push(layer);
        assert(loader.tensors() =~= start + conformers_tensors(upsampled, (i + 1) as nat));
    }
    layers
}

/// Every token is in the vocabulary.
pub open spec fn all_in_vocabulary(tokens: Seq<i32>, vocab: int) -> bool {
    forall|i: int| 0 <= i < tokens.len() ==> 0 <= #[trigger] tokens[i] < vocab
}

/// Whether every token is in the vocabulary.
pub fn in_vocabulary(tokens: &[i32], vocab: usize) -> (ok: bool)
    ensures
        ok == all_in_vocabulary(tokens@, vocab as int),
{
    for i in 0..tokens.len()
        invariant
            forall|j: int| 0 <= j < i ==> 0 <= #[trigger] tokens@[j] < vocab,
    {
        let token: i32 = tokens[i];
        if token < 0 || token as usize >= vocab {
            return false;
        }
    }
    true
}

/// A linear map, a layer normalisation, and a scale of the square root of the
/// width.
pub open spec fn scaled_input(
    x: Term,
    weight: Term,
    bias: Term,
    norm_weight: Term,
    norm_bias: Term,
    len: u32,
) -> Term {
    let n = (512 * len) as u32;
    let normalized = layer_norm_f32in(
        copy_f16_to_f32(linear(x, weight, bias, len, 512, 512), n),
        norm_weight,
        norm_bias,
        len,
        512,
        Scalar::Single(EPS_1E5),
    );
    copy_f16_to_f32(scale_f16(normalized, n, Scalar::Single(SQRT_512)), n)
}

/// Runs [`scaled_input`] into a fresh buffer.
fn linear_norm_scale(
    plan: &mut Plan,
    input: usize,
    seq_len: usize,
    weight: usize,
    bias: usize,
    norm_weight: usize,
    norm_bias: usize,
) -> (output: usize)
    requires
        old(plan).wf(),
        512 * seq_len <= u32::MAX,
        holds(*old(plan), input, 512 * seq_len),
        holds(*old(plan), weight, 262144),
        holds(*old(plan), bias, 512),
        holds(*old(plan), norm_weight, 512),
        holds(*old(plan), norm_bias, 512),
    ensures
        final(plan).wf(),
        extends(*old(plan), *final(plan)),
        final(plan).values().len() == old(plan).values().len() + 5,
        output == old(plan).values().len() + 4,
        final(plan).sizes()[output as int] == 512 * seq_len,
        final(plan).values()[output as int] == scaled_input(
            old(plan).values()[input as int],
            old(plan).values()[weight as int],
            old(plan).values()[bias as int],
            old(plan).values()[norm_weight as int],
            old(plan).values()[norm_bias as int],
            seq_len as u32,
        ),
{
    let len: u32 = seq_len as u32;
    let n: usize = seq_len * 512;
    let projected: usize = run_linear(plan, input, weight, bias, len, 512, 512);
    let projected_f32: usize = plan.zeros(n);
    plan.copy_f16_to_f32(projected, projected_f32, 512 * len);
    let normalized: usize = plan.zeros(n);
    plan.layer_norm_f32in(
        projected_f32,
        norm_weight,
        norm_bias,
        normalized,
        len,
        512,
        Scalar::Single(EPS_1E5),
    );
    let scaled: usize = plan.zeros(n);
    plan.scale_f16(normalized, scaled, 512 * len, Scalar::Single(SQRT_512));
    let output: usize = plan.zeros(n);
    plan.copy_f16_to_f32(scaled, output, 512 * len);
    output
}

/// Two convolutions that look ahead, added to the stream.
pub open spec fn looked_ahead(w: S3Input, plan: Plan, x: Term, len: u32) -> Term {
    let v = plan.values();
    let n = (512 * len) as u32;
    let first = conv1d_padded_f16(
        transpose_f16(copy_f32_to_f16(x, n), len, 512),
        v[w.lookahead1_weight as int],
        v[w.lookahead1_bias as int],
        512,
        512,
        len,
        4,
        0,
    );
    let second = conv1d_padded_f16(
        leaky_relu_f16(first, n, Scalar::Single(SLOPE_001)),
        v[w.lookahead2_weight as int],
        v[w.lookahead2_bias as int],
        512,
        512,
        len,
        3,
        2,
    );
    add_inplace_f32_f16(x, transpose_f16(second, 512, len), n)
}

/// Frames doubled in time and convolved.
pub open spec fn doubled(w: S3Upsample, plan: Plan, x: Term, len: u32) -> Term {
    let v = plan.values();
    let channels = transpose_f16(copy_f32_to_f16(x, (512 * len) as u32), len, 512);
    let convolved = conv1d_padded_f16(
        repeat_interleave_f16(channels, 512, len, 2),
        v[w.upsample_weight as int],
        v[w.upsample_bias as int],
        512,
        512,
        (2 * len) as u32,
        5,
        4,
    );
    transpose_f16(convolved, 512, (2 * len) as u32)
}

/// Why tokens cannot be encoded, if they cannot.
pub open spec fn tokens_fault(tokens: Seq<i32>) -> Option<Seq<char>> {
    if tokens.len() == 0 {
        Some("S3Gen token sequence is empty"@)
    } else if !all_in_vocabulary(tokens, 6561) {
        Some("S3Gen token is outside vocabulary"@)
    } else {
        None
    }
}

impl ChatterboxS3Encoder {
    /// The weights exist at their full size.
    pub open spec fn fits(self, plan: Plan) -> bool {
        &&& self.input.fits(plan)
        &&& self.up.fits(plan)
        &&& self.output.fits(plan)
        &&& forall|i: int| 0 <= i < self.layers@.len() ==> (#[trigger] self.layers@[i]).fits(plan)
        &&& forall|i: int|
            0 <= i < self.up_layers@.len() ==> (#[trigger] self.up_layers@[i]).fits(plan)
    }

    /// Requires the weights of the token encoder.
    pub fn load(loader: &mut Loader) -> (model: Self)
        requires
            old(loader).wf(),
        ensures
            final(loader).wf(),
            ({
                let base = old(loader).tensors().len() as int;
                &&& model.input == S3Input::at(base)
                &&& model.layers@.len() == 6
                &&& forall|i: int|
                    0 <= i < 6 ==> #[trigger] model.layers@[i] == ChatterboxS3ConformerLayer::at(
                        base + 9 + 19 * i,
                    )
                &&& model.up == S3Upsample::at(base + 123)
                &&& model.up_layers@.len() == 4
                &&& forall|i: int|
                    0 <= i < 4 ==> #[trigger] model.up_layers@[i] == ChatterboxS3ConformerLayer::at(
                        base + 129 + 19 * i,
                    )
                &&& model.output == S3Output::at(base + 205)
            }),
            final(loader).tensors() == old(loader).tensors() + s3_input_tensors()
                + conformers_tensors(false, 6) + s3_upsample_tensors() + conformers_tensors(true, 4)
                + s3_output_tensors(),
    {
        let input = S3Input::load(loader);
        let layers = load_conformers(loader, false);
        let up = S3Upsample::load(loader);
        let up_layers = load_conformers(loader, true);
        let output = S3Output::load(loader);
        ChatterboxS3Encoder { input, layers, up, up_layers, output }
    }

    /// The stream of the token layers.
    pub open spec fn token_stream(self, plan: Plan, tokens: Seq<i32>, positions: Term) -> Term {
        let v = plan.values();
        let len = tokens.len() as u32;
        let w = self.input;
        let embedded = gather_rows_f16(
            v[w.token_embedding as int],
            Term::Integers(tokens),
            len,
            512,
        );
        let entry = scaled_input(
            embedded,
            v[w.input_weight as int],
            v[w.input_bias as int],
            v[w.input_norm_weight as int],
            v[w.input_norm_bias as int],
            len,
        );
        conformers(
            self.layers@,
            plan,
            looked_ahead(w, plan, entry, len),
            positions,
            len,
            self.layers@.len(),
        )
    }

    /// The encoded frames: two per token, 80 values each.
    pub open spec fn encoded(
        self,
        plan: Plan,
        tokens: Seq<i32>,
        positions: Term,
        up_positions: Term,
    ) -> Term {
        let v = plan.values();
        let up_len = (2 * tokens.len()) as u32;
        let entry = scaled_input(
            doubled(self.up, plan, self.token_stream(plan, tokens, positions), tokens.len() as u32),
            v[self.up.input_weight as int],
            v[self.up.input_bias as int],
            v[self.up.input_norm_weight as int],
            v[self.up.input_norm_bias as int],
            up_len,
        );
        let last = conformers(
            self.up_layers@,
            plan,
            entry,
            up_positions,
            up_len,
            self.up_layers@.len(),
        );
        let normalized = layer_norm_f32in(
            last,
            v[self.output.final_norm_weight as int],
            v[self.output.final_norm_bias as int],
            up_len,
            512,
            Scalar::Single(EPS_1E5),
        );
        linear(
            normalized,
            v[self.output.projection_weight as int],
            v[self.output.projection_bias as int],
            up_len,
            80,
            512,
        )
    }

    /// Adds two looking-ahead convolutions to the stream in `hidden`.
    fn prelookahead(
        &self,
        plan: &mut Plan,
        hidden: usize,
        seq_len: usize,
        Ghost(start): Ghost<Plan>,
    )
        requires
            old(plan).wf(),
            extends(start, *old(plan)),
            self.input.fits(start),
            start.values().len() <= hidden,
            512 * seq_len <= u32::MAX,
            holds(*old(plan), hidden, 512 * seq_len),
        ensures
            final(plan).wf(),
            final(plan).values().len() == old(plan).values().len() + 6,
            only_changes(*old(plan), *final(plan), hidden),
            final(plan).values()[hidden as int] == looked_ahead(
                self.input,
                start,
                old(plan).values()[hidden as int],
                seq_len as u32,
            ),
    {
        let len: u32 = seq_len as u32;
        let n: usize = seq_len * 512;
        let sequence: usize = plan.zeros(n);
        plan.copy_f32_to_f16(hidden, sequence, 512 * len);
        let channels: usize = plan.zeros(n);
        plan.transpose_f16(sequence, channels, len, 512);
        let first: usize = plan.zeros(n);
        plan.conv1d_padded_f16(
            channels,
            self.input.lookahead1_weight,
            self.input.lookahead1_bias,
            first,
            512,
            512,
            len,
            4,
            0,
        );
        let activated: usize = plan.zeros(n);
        plan.leaky_relu_f16(first, activated, 512 * len, Scalar::Single(SLOPE_001));
        let second: usize = plan.zeros(n);
        plan.conv1d_padded_f16(
            activated,
            self.input.lookahead2_weight,
            self.input.lookahead2_bias,
            second,
            512,
            512,
            len,
            3,
            2,
        );
        let delta: usize = plan.zeros(n);
        plan.transpose_f16(second, delta, 512, len);
        plan.add_inplace_f32_f16(hidden, delta, 512 * len);
    }
}

/// Runs conformer layers over the stream in `hidden`.
fn run_conformers(
    plan: &mut Plan,
    layers: &Vec<ChatterboxS3ConformerLayer>,
    hidden: usize,
    positions: usize,
    seq_len: usize,
    Ghost(start): Ghost<Plan>,
)
    requires
        old(plan).wf(),
        extends(start, *old(plan)),
        forall|i: int| 0 <= i < layers@.len() ==> (#[trigger] layers@[i]).fits(start),
        start.values().len() <= hidden,
        positions < start.values().len(),
        0 < seq_len,
        2048 * seq_len <= u32::MAX,
        holds(*old(plan), hidden, 512 * seq_len),
        holds(start, positions, 512 * (2 * seq_len - 1)),
    ensures
        final(plan).wf(),
        final(plan).values().len() == old(plan).values().len() + 11 * layers@.len(),
        only_changes(*old(plan), *final(plan), hidden),
        final(plan).values()[hidden as int] == conformers(
            layers@,
            start,
            old(plan).values()[hidden as int],
            start.values()[positions as int],
            seq_len as u32,
            layers@.len(),
        ),
{
    let ghost entry = *plan;
    let ghost x = plan.values()[hidden as int];
    let ghost p = start.values()[positions as int];
    let count: usize = layers.len();
    for i in 0..count
        invariant
            plan.wf(),
            count == layers@.len(),
            extends(start, entry),
            only_changes(entry, *plan, hidden),
            forall|j: int| 0 <= j < layers@.len() ==> (#[trigger] layers@[j]).fits(start),
            start.values().len() <= hidden < entry.values().len(),
            positions < start.values().len(),
            p == start.values()[positions as int],
            0 < seq_len,
            2048 * seq_len <= u32::MAX,
            holds(entry, hidden, 512 * seq_len),
            holds(start, positions, 512 * (2 * seq_len - 1)),
            plan.values().len() == entry.values().len() + 11 * i,
            plan.values()[hidden as int] == conformers(
                layers@,
                start,
                x,
                p,
                seq_len as u32,
                i as nat,
            ),
    {
        let layer = layers[i];
        assert(layers@[i as int].fits(start));
        layer.forward_device(plan, hidden, positions, seq_len, Ghost(start));
    }
}

impl ChatterboxS3Encoder {
    /// Encodes prompt and generated speech tokens. `positions` and
    /// `up_positions` hold the relative position embeddings of as many and of
    /// twice as many frames. The result names the buffer of two frames of 80
    /// values per token.
    #[verifier::rlimit(60)]
    pub fn encode(
        &self,
        plan: &mut Plan,
        tokens: &[i32],
        positions: usize,
        up_positions: usize,
    ) -> (outcome: Result<usize, String>)
        requires
            old(plan).wf(),
            self.fits(*old(plan)),
            4096 * tokens@.len() <= u32::MAX,
            tokens@.len() > 0 ==> holds(
                *old(plan),
                positions,
                512 * (2 * tokens@.len() - 1),
            ),
            tokens@.len() > 0 ==> holds(
                *old(plan),
                up_positions,
                512 * (4 * tokens@.len() - 1),
            ),
        ensures
            final(plan).wf(),
            match outcome {
                Err(message) => tokens_fault(tokens@) == Some(message@) && *final(plan) == *old(
                    plan,
                ),
                Ok(output) => {
                    &&& tokens_fault(tokens@) is None
                    &&& extends(*old(plan), *final(plan))
                    &&& sized(*final(plan), output, (160 * tokens@.len()) as int)
                    &&& final(plan).values()[output as int] == self.encoded(
                        *old(plan),
                        tokens@,
                        old(plan).values()[positions as int],
                        old(plan).values()[up_positions as int],
                    )
                },
            },
    {
        if tokens.len() == 0 {
            return Err("S3Gen token sequence is empty".to_owned());
        }
        if !in_vocabulary(tokens, S3_VOCAB_SIZE) {
            return Err("S3Gen token is outside vocabulary".to_owned());
        }
        let ghost start = *plan;
        let count: usize = tokens.len();
        let len: u32 = count as u32;
        let ids: usize = plan.upload(tokens);
        let embeddings: usize = plan.zeros(count * 512);
        plan.gather_rows_f16(self.input.token_embedding, ids, embeddings, len, 512);
        let hidden: usize = linear_norm_scale(
            plan,
            embeddings,
            count,
            self.input.input_weight,
            self.input.input_bias,
            self.input.input_norm_weight,
            self.input.input_norm_bias,
        );
        self.prelookahead(plan, hidden, count, Ghost(start));
        run_conformers(plan, &self.layers, hidden, positions, count, Ghost(start));
        let up_len: usize = count * 2;
        let sequence: usize = plan.zeros(count * 512);
        plan.copy_f32_to_f16(hidden, sequence, 512 * len);
        let channels: usize = plan.zeros(count * 512);
        plan.transpose_f16(sequence, channels, len, 512);
        let repeated: usize = plan.zeros(up_len * 512);
        plan.repeat_interleave_f16(channels, repeated, 512, len, 2);
        let convolved: usize = plan.zeros(up_len * 512);
        plan.conv1d_padded_f16(
            repeated,
            self.up.upsample_weight,
            self.up.upsample_bias,
            convolved,
            512,
            512,
            up_len as u32,
            5,
            4,
        );
        let up_sequence: usize = plan.zeros(up_len * 512);
        plan.transpose_f16(convolved, up_sequence, 512, up_len as u32);
        let up_hidden: usize = linear_norm_scale(
            plan,
            up_sequence,
            up_len,
            self.up.input_weight,
            self.up.input_bias,
            self.up.input_norm_weight,
            self.up.input_norm_bias,
        );
        run_conformers(plan, &self.up_layers, up_hidden, up_positions, up_len, Ghost(start));
        let normalized: usize = plan.zeros(up_len * 512);
        plan.layer_norm_f32in(
            up_hidden,
            self.output.final_norm_weight,
            self.output.final_norm_bias,
            normalized,
            up_len as u32,
            512,
            Scalar::Single(EPS_1E5),
        );
        let projected: usize = run_linear(
            plan,
            normalized,
            self.output.projection_weight,
            self.output.projection_bias,
            up_len as u32,
            80,
            512,
        );
        Ok(projected)
    }
}

/// The relative positions of `n` frames, one per row of position embeddings:
/// from `n - 1` down to `-(n - 1)`.
pub fn relative_positions(n: usize) -> (positions: Vec<i32>)
    requires
        0 < n <= 0x3fff_ffff,
    ensures
        positions@.len() == 2 * n - 1,
        forall|i: int| 0 <= i < 2 * n - 1 ==> #[trigger] positions@[i] == n - 1 - i,
{
    let mut positions: Vec<i32> = Vec::new();
    let total: usize = 2 * n - 1;
    for i in 0..total
        invariant
            0 < n <= 0x3fff_ffff,
            total == 2 * n - 1,
            positions@.len() == i,
            forall|j: int| 0 <= j < i ==> #[trigger] positions@[j] == n - 1 - j,
    {
        positions.push(n as i32 - 1 - i as i32);
    }
    positions
}

impl ChatterboxS3ConformerLayer {
    /// Loaded weights exist at their full size.
    pub proof fn law_loaded_weights_fit(plan: Plan, base: int, prefix: Seq<char>)
        requires
            stores(plan, base, conformer_tensors(prefix)),
        ensures
            Self::at(base).fits(plan),
    {
        let tensors = conformer_tensors(prefix);
        lemma_stored1(plan, base, tensors, 0, 512);
        lemma_stored1(plan, base, tensors, 1, 512);
        lemma_stored2(plan, base, tensors, 2, 512, 512);
        lemma_stored1(plan, base, tensors, 3, 512);
        lemma_stored2(plan, base, tensors, 4, 512, 512);
        lemma_stored1(plan, base, tensors, 5, 512);
        lemma_stored2(plan, base, tensors, 6, 512, 512);
        lemma_stored1(plan, base, tensors, 7, 512);
        lemma_stored2(plan, base, tensors, 8, 512, 512);
        lemma_stored2(plan, base, tensors, 9, 8, 64);
        lemma_stored2(plan, base, tensors, 10, 8, 64);
        lemma_stored2(plan, base, tensors, 11, 512, 512);
        lemma_stored1(plan, base, tensors, 12, 512);
        lemma_stored1(plan, base, tensors, 13, 512);
        lemma_stored1(plan, base, tensors, 14, 512);
        lemma_stored2(plan, base, tensors, 15, 2048, 512);
        lemma_stored1(plan, base, tensors, 16, 2048);
        lemma_stored2(plan, base, tensors, 17, 512, 2048);
        lemma_stored1(plan, base, tensors, 18, 512);
    }
}

impl S3Input {
    /// Loaded weights exist at their full size.
    pub proof fn law_loaded_weights_fit(plan: Plan, base: int)
        requires
            stores(plan, base, s3_input_tensors()),
        ensures
            Self::at(base).fits(plan),
    {
        let tensors = s3_input_tensors();
        lemma_stored2(plan, base, tensors, 0, 6561, 512);
        lemma_stored2(plan, base, tensors, 1, 512, 512);
        lemma_stored1(plan, base, tensors, 2, 512);
        lemma_stored1(plan, base, tensors, 3, 512);
        lemma_stored1(plan, base, tensors, 4, 512);
        lemma_stored3(plan, base, tensors, 5, 512, 512, 4);
        lemma_stored1(plan, base, tensors, 6, 512);
        lemma_stored3(plan, base, tensors, 7, 512, 512, 3);
        lemma_stored1(plan, base, tensors, 8, 512);
    }
}

impl S3Upsample {
    /// Loaded weights exist at their full size.
    pub proof fn law_loaded_weights_fit(plan: Plan, base: int)
        requires
            stores(plan, base, s3_upsample_tensors()),
        ensures
            Self::at(base).fits(plan),
    {
        let tensors = s3_upsample_tensors();
        lemma_stored3(plan, base, tensors, 0, 512, 512, 5);
        lemma_stored1(plan, base, tensors, 1, 512);
        lemma_stored2(plan, base, tensors, 2, 512, 512);
        lemma_stored1(plan, base, tensors, 3, 512);
        lemma_stored1(plan, base, tensors, 4, 512);
        lemma_stored1(plan, base, tensors, 5, 512);
    }
}

impl S3Output {
    /// Loaded weights exist at their full size.
    pub proof fn law_loaded_weights_fit(plan: Plan, base: int)
        requires
            stores(plan, base, s3_output_tensors()),
        ensures
            Self::at(base).fits(plan),
    {
        let tensors = s3_output_tensors();
        lemma_stored1(plan, base, tensors, 0, 512);
        lemma_stored1(plan, base, tensors, 1, 512);
        lemma_stored2(plan, base, tensors, 2, 80, 512);
        lemma_stored1(plan, base, tensors, 3, 80);
    }
}

} // verus!
