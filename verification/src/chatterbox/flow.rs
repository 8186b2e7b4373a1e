//! The transformer block of the conditional-flow network.
use vstd::prelude::*;
use vstd::string::*;
use crate::device::{EPS_1E5, Plan, Scalar, Term, extends, holds, sized};
use crate::device::value::{
    add_bias_f16_inplace, add_inplace_f32_f16, gelu_erf_f16, layer_norm_f32in, matmul_f16,
    mha_naive_full,
};
use crate::weights::{Absence, Loader, Tensor, got, lemma_stored1, lemma_stored2, stores};

verus! {

/// The transformer block of the conditional-flow network, as buffers.
#[derive(Clone, Copy, Debug, PartialEq, Eq, Structural)]
pub struct ChatterboxFlowTransformerBlock {
    pub norm1_weight: usize,
    pub norm1_bias: usize,
    pub q_weight: usize,
    pub k_weight: usize,
    pub v_weight: usize,
    pub out_weight: usize,
    pub out_bias: usize,
    pub norm3_weight: usize,
    pub norm3_bias: usize,
    pub ff1_weight: usize,
    pub ff1_bias: usize,
    pub ff2_weight: usize,
    pub ff2_bias: usize,
}

/// A tensor of the flow.
pub open spec fn part(name: Seq<char>, shape: Seq<usize>) -> Tensor {
    got(name, shape).gone(Absence::UnloadedFlow)
}

/// The tensors of a [`ChatterboxFlowTransformerBlock`] in loading order.
pub open spec fn flow_block_tensors(prefix: Seq<char>) -> Seq<Tensor> {
    seq![
        part(prefix + ".norm1.weight"@, seq![256]),
        part(prefix + ".norm1.bias"@, seq![256]),
        part(prefix + ".attn1.to_q.weight"@, seq![512, 256]),
        part(prefix + ".attn1.to_k.weight"@, seq![512, 256]),
        part(prefix + ".attn1.to_v.weight"@, seq![512, 256]),
        part(prefix + ".attn1.to_out.0.weight"@, seq![256, 512]),
        part(prefix + ".attn1.to_out.0.bias"@, seq![256]),
        part(prefix + ".norm3.weight"@, seq![256]),
        part(prefix + ".norm3.bias"@, seq![256]),
        part(prefix + ".ff.net.0.proj.weight"@, seq![1024, 256]),
        part(prefix + ".ff.net.0.proj.bias"@, seq![1024]),
        part(prefix + ".ff.net.2.weight"@, seq![256, 1024]),
        part(prefix + ".ff.net.2.bias"@, seq![256]),
    ]
}

impl ChatterboxFlowTransformerBlock {
    /// The buffers that start at `base`.
    pub open spec fn at(base: int) -> Self {
        ChatterboxFlowTransformerBlock {
            norm1_weight: base as usize,
            norm1_bias: (base + 1) as usize,
            q_weight: (base + 2) as usize,
            k_weight: (base + 3) as usize,
            v_weight: (base + 4) as usize,
            out_weight: (base + 5) as usize,
            out_bias: (base + 6) as usize,
            norm3_weight: (base + 7) as usize,
            norm3_bias: (base + 8) as usize,
            ff1_weight: (base + 9) as usize,
            ff1_bias: (base + 10) as usize,
            ff2_weight: (base + 11) as usize,
            ff2_bias: (base + 12) as usize,
        }
    }

    /// The weights exist at their full size.
    pub open spec fn fits(self, plan: Plan) -> bool {
        &&& holds(plan, self.norm1_weight, 256)
        &&& holds(plan, self.norm1_bias, 256)
        &&& holds(plan, self.q_weight, 131072)
        &&& holds(plan, self.k_weight, 131072)
        &&& holds(plan, self.v_weight, 131072)
        &&& holds(plan, self.out_weight, 131072)
        &&& holds(plan, self.out_bias, 256)
        &&& holds(plan, self.norm3_weight, 256)
        &&& holds(plan, self.norm3_bias, 256)
        &&& holds(plan, self.ff1_weight, 262144)
        &&& holds(plan, self.ff1_bias, 1024)
        &&& holds(plan, self.ff2_weight, 262144)
        &&& holds(plan, self.ff2_bias, 256)
    }

    /// Requires the tensors.
    pub fn load(loader: &mut Loader, prefix: &str) -> (weights: Self)
        requires
            old(loader).wf(),
        ensures
            final(loader).wf(),
            weights == Self::at(old(loader).tensors().len() as int),
            final(loader).tensors() == old(loader).tensors() + flow_block_tensors(prefix@),
    {
        let norm1_weight: usize = loader.flow_vector(prefix, ".norm1.weight", 256);
        let norm1_bias: usize = loader.flow_vector(prefix, ".norm1.bias", 256);
        let q_weight: usize = loader.flow_matrix(prefix, ".attn1.to_q.weight", 512, 256);
        let k_weight: usize = loader.flow_matrix(prefix, ".attn1.to_k.weight", 512, 256);
        let v_weight: usize = loader.flow_matrix(prefix, ".attn1.to_v.weight", 512, 256);
        let out_weight: usize = loader.flow_matrix(prefix, ".attn1.to_out.0.weight", 256, 512);
        let out_bias: usize = loader.flow_vector(prefix, ".attn1.to_out.0.bias", 256);
        let norm3_weight: usize = loader.flow_vector(prefix, ".norm3.weight", 256);
        let norm3_bias: usize = loader.flow_vector(prefix, ".norm3.bias", 256);
        let ff1_weight: usize = loader.flow_matrix(prefix, ".ff.net.0.proj.weight", 1024, 256);
        let ff1_bias: usize = loader.flow_vector(prefix, ".ff.net.0.proj.bias", 1024);
        let ff2_weight: usize = loader.flow_matrix(prefix, ".ff.net.2.weight", 256, 1024);
        let ff2_bias: usize = loader.flow_vector(prefix, ".ff.net.2.bias", 256);
        assert(loader.tensors() =~= old(loader).tensors() + flow_block_tensors(prefix@));
        ChatterboxFlowTransformerBlock { norm1_weight, norm1_bias, q_weight, k_weight, v_weight, out_weight, out_bias, norm3_weight, norm3_bias, ff1_weight, ff1_bias, ff2_weight, ff2_bias }
    }
}

/// Full self-attention added to the stream.
pub open spec fn flow_attended(w: ChatterboxFlowTransformerBlock, plan: Plan, x: Term, len: u32) -> Term {
    let v = plan.values();
    let normed = layer_norm_f32in(
        x,
        v[w.norm1_weight as int],
        v[w.norm1_bias as int],
        len,
        256,
        Scalar::Single(EPS_1E5),
    );
    let out = mha_naive_full(
        matmul_f16(normed, v[w.q_weight as int], len, 512, 256),
        matmul_f16(normed, v[w.k_weight as int], len, 512, 256),
        matmul_f16(normed, v[w.v_weight as int], len, 512, 256),
        64,
        8,
        8,
        len,
        len,
        Scalar::InverseSqrt(64),
        Scalar::Single(0),
    );
    add_inplace_f32_f16(
        x,
        add_bias_f16_inplace(
            matmul_f16(out, v[w.out_weight as int], len, 256, 512),
            v[w.out_bias as int],
            len,
            256,
        ),
        (256 * len) as u32,
    )
}

/// A GELU network added to the stream.
pub open spec fn flow_fed_forward(w: ChatterboxFlowTransformerBlock, plan: Plan, x: Term, len: u32) -> Term {
    let v = plan.values();
    let normed = layer_norm_f32in(
        x,
        v[w.norm3_weight as int],
        v[w.norm3_bias as int],
        len,
        256,
        Scalar::Single(EPS_1E5),
    );
    let inner = add_bias_f16_inplace(
        matmul_f16(normed, v[w.ff1_weight as int], len, 1024, 256),
        v[w.ff1_bias as int],
        len,
        1024,
    );
    add_inplace_f32_f16(
        x,
        add_bias_f16_inplace(
            matmul_f16(
                gelu_erf_f16(inner, (1024 * len) as u32),
                v[w.ff2_weight as int],
                len,
                256,
                1024,
            ),
            v[w.ff2_bias as int],
            len,
            256,
        ),
        (256 * len) as u32,
    )
}

impl ChatterboxFlowTransformerBlock {
    /// Runs the block over `seq_len` frames of 256 values. The input becomes a
    /// given buffer, which also holds the result.
    pub fn forward(&self, plan: &mut Plan, input_len: usize, seq_len: usize) -> (outcome: Result<
        usize,
        String,
    >)
        requires
            old(plan).wf(),
            self.fits(*old(plan)),
            256 * seq_len <= usize::MAX,
            input_len == 256 * seq_len ==> 1024 * seq_len <= u32::MAX,
        ensures
            final(plan).wf(),
            match outcome {
                Err(message) => {
                    &&& seq_len == 0 || input_len != 256 * seq_len
                    &&& message@ == "invalid flow block input"@
                    &&& *final(plan) == *old(plan)
                },
                Ok(output) => {
                    &&& seq_len > 0
                    &&& input_len == 256 * seq_len
                    &&& extends(*old(plan), *final(plan))
                    &&& sized(*final(plan), output, 256 * seq_len)
                    &&& final(plan).values()[output as int] == flow_fed_forward(
                        *self,
                        *old(plan),
                        flow_attended(
                            *self,
                            *old(plan),
                            Term::Given(old(plan).steps().len()),
                            seq_len as u32,
                        ),
                        seq_len as u32,
                    )
                },
            },
    {
        if seq_len == 0 || input_len != seq_len * 256 {
            return Err("invalid flow block input".to_owned());
        }
        let len: u32 = seq_len as u32;
        let n: usize = seq_len * 256;
        let hidden: usize = plan.given(input_len);
        let norm: usize = plan.zeros(n);
        plan.layer_norm_f32in(
            hidden,
            self.norm1_weight,
            self.norm1_bias,
            norm,
            len,
            256,
            Scalar::Single(EPS_1E5),
        );
        let q: usize = plan.zeros(seq_len * 512);
        let k: usize = plan.zeros(seq_len * 512);
        let v: usize = plan.zeros(seq_len * 512);
        plan.matmul_f16(norm, self.q_weight, q, len, 512, 256);
        plan.matmul_f16(norm, self.k_weight, k, len, 512, 256);
        plan.matmul_f16(norm, self.v_weight, v, len, 512, 256);
        let attention: usize = plan.zeros(seq_len * 512);
        plan.mha_naive_full(
            q,
            k,
            v,
            attention,
            64,
            8,
            8,
            len,
            len,
            Scalar::InverseSqrt(64),
            Scalar::Single(0),
        );
        let delta: usize = plan.zeros(n);
        plan.matmul_f16(attention, self.out_weight, delta, len, 256, 512);
        plan.add_bias_f16_inplace(delta, self.out_bias, len, 256);
        plan.add_inplace_f32_f16(hidden, delta, 256 * len);
        plan.layer_norm_f32in(
            hidden,
            self.norm3_weight,
            self.norm3_bias,
            norm,
            len,
            256,
            Scalar::Single(EPS_1E5),
        );
        let ff: usize = plan.zeros(seq_len * 1024);
        plan.matmul_f16(norm, self.ff1_weight, ff, len, 1024, 256);
        plan.add_bias_f16_inplace(ff, self.ff1_bias, len, 1024);
        let activated: usize = plan.zeros(seq_len * 1024);
        plan.gelu_erf_f16(ff, activated, 1024 * len);
        plan.matmul_f16(activated, self.ff2_weight, delta, len, 256, 1024);
        plan.add_bias_f16_inplace(delta, self.ff2_bias, len, 256);
        plan.add_inplace_f32_f16(hidden, delta, 256 * len);
        Ok(hidden)
    }
}

impl ChatterboxFlowTransformerBlock {
    /// Loaded weights exist at their full size.
    pub proof fn law_loaded_weights_fit(plan: Plan, base: int, prefix: Seq<char>)
        requires
            stores(plan, base, flow_block_tensors(prefix)),
        ensures
            Self::at(base).fits(plan),
    {
        let tensors = flow_block_tensors(prefix);
        lemma_stored1(plan, base, tensors, 0, 256);
        lemma_stored1(plan, base, tensors, 1, 256);
        lemma_stored2(plan, base, tensors, 2, 512, 256);
        lemma_stored2(plan, base, tensors, 3, 512, 256);
        lemma_stored2(plan, base, tensors, 4, 512, 256);
        lemma_stored2(plan, base, tensors, 5, 256, 512);
        lemma_stored1(plan, base, tensors, 6, 256);
        lemma_stored1(plan, base, tensors, 7, 256);
        lemma_stored1(plan, base, tensors, 8, 256);
        lemma_stored2(plan, base, tensors, 9, 1024, 256);
        lemma_stored1(plan, base, tensors, 10, 1024);
        lemma_stored2(plan, base, tensors, 11, 256, 1024);
        lemma_stored1(plan, base, tensors, 12, 256);
    }
}

} // verus!
