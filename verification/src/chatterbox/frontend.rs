//! Embeddings, conditioning and logits around the T3 decoder.
use vstd::prelude::*;
use vstd::string::*;
use crate::chatterbox::{MAX_TEXT_TOKENS, SPEECH_VOCAB_SIZE, TEXT_VOCAB_SIZE};
use crate::chatterbox::s3gen::{all_in_vocabulary, in_vocabulary};
use crate::device::{EPS_1E5, Plan, Scalar, Term, extends, holds, sized};
use crate::device::compound::{linear, run_linear};
use crate::device::value::{
    add_bias_f16_inplace, add_f16, copy_f16_at, copy_f16_to_f32, gather_rows_f16, gemv_f16,
    layer_norm_f32in, matmul_f16, mha_naive_full,
};
use crate::text::{decimal, to_decimal};
use crate::weights::{
    Complaint, Loader, Tensor, labelled, lemma_stored1, lemma_stored2, lemma_stored3, stores,
};

verus! {

/// Embeddings and conditioning of T3, as buffers.
#[derive(Clone, Copy, Debug, PartialEq, Eq, Structural)]
pub struct ChatterboxT3Frontend {
    pub text_embedding: usize,
    pub speech_embedding: usize,
    pub text_position: usize,
    pub speech_position: usize,
    pub speech_head: usize,
    pub speaker_weight: usize,
    pub speaker_bias: usize,
    pub emotion_weight: usize,
    pub perceiver_query: usize,
    pub perceiver_norm_weight: usize,
    pub perceiver_norm_bias: usize,
    pub perceiver_q_weight: usize,
    pub perceiver_q_bias: usize,
    pub perceiver_k_weight: usize,
    pub perceiver_k_bias: usize,
    pub perceiver_v_weight: usize,
    pub perceiver_v_bias: usize,
    pub perceiver_out_weight: usize,
    pub perceiver_out_bias: usize,
}

/// The tensors of a [`ChatterboxT3Frontend`] in loading order.
pub open spec fn t3_frontend_tensors() -> Seq<Tensor> {
    seq![
        labelled("Chatterbox T3 "@, "text_emb.weight"@, seq![2454, 1024]),
        labelled("Chatterbox T3 "@, "speech_emb.weight"@, seq![8194, 1024]),
        labelled("Chatterbox T3 "@, "text_pos_emb.emb.weight"@, seq![2050, 1024]),
        labelled("Chatterbox T3 "@, "speech_pos_emb.emb.weight"@, seq![4100, 1024]),
        labelled("Chatterbox T3 "@, "speech_head.weight"@, seq![8194, 1024]),
        labelled("Chatterbox T3 "@, "cond_enc.spkr_enc.weight"@, seq![1024, 256]),
        labelled("Chatterbox T3 "@, "cond_enc.spkr_enc.bias"@, seq![1024]),
        labelled("Chatterbox T3 "@, "cond_enc.emotion_adv_fc.weight"@, seq![1024, 1]),
        labelled("Chatterbox T3 "@, "cond_enc.perceiver.pre_attention_query"@, seq![1, 32, 1024]),
        labelled("Chatterbox T3 "@, "cond_enc.perceiver.attn.norm.weight"@, seq![1024]),
        labelled("Chatterbox T3 "@, "cond_enc.perceiver.attn.norm.bias"@, seq![1024]),
        labelled("Chatterbox T3 "@, "cond_enc.perceiver.attn.to_q.weight"@, seq![1024, 1024]),
        labelled("Chatterbox T3 "@, "cond_enc.perceiver.attn.to_q.bias"@, seq![1024]),
        labelled("Chatterbox T3 "@, "cond_enc.perceiver.attn.to_k.weight"@, seq![1024, 1024]),
        labelled("Chatterbox T3 "@, "cond_enc.perceiver.attn.to_k.bias"@, seq![1024]),
        labelled("Chatterbox T3 "@, "cond_enc.perceiver.attn.to_v.weight"@, seq![1024, 1024]),
        labelled("Chatterbox T3 "@, "cond_enc.perceiver.attn.to_v.bias"@, seq![1024]),
        labelled("Chatterbox T3 "@, "cond_enc.perceiver.attn.proj_out.weight"@, seq![1024, 1024]),
        labelled("Chatterbox T3 "@, "cond_enc.perceiver.attn.proj_out.bias"@, seq![1024]),
    ]
}

impl ChatterboxT3Frontend {
    /// The buffers that start at `base`.
    pub open spec fn at(base: int) -> Self {
        ChatterboxT3Frontend {
            text_embedding: base as usize,
            speech_embedding: (base + 1) as usize,
            text_position: (base + 2) as usize,
            speech_position: (base + 3) as usize,
            speech_head: (base + 4) as usize,
            speaker_weight: (base + 5) as usize,
            speaker_bias: (base + 6) as usize,
            emotion_weight: (base + 7) as usize,
            perceiver_query: (base + 8) as usize,
            perceiver_norm_weight: (base + 9) as usize,
            perceiver_norm_bias: (base + 10) as usize,
            perceiver_q_weight: (base + 11) as usize,
            perceiver_q_bias: (base + 12) as usize,
            perceiver_k_weight: (base + 13) as usize,
            perceiver_k_bias: (base + 14) as usize,
            perceiver_v_weight: (base + 15) as usize,
            perceiver_v_bias: (base + 16) as usize,
            perceiver_out_weight: (base + 17) as usize,
            perceiver_out_bias: (base + 18) as usize,
        }
    }

    /// The weights exist at their full size.
    pub open spec fn fits(self, plan: Plan) -> bool {
        &&& holds(plan, self.text_embedding, 2512896)
        &&& holds(plan, self.speech_embedding, 8390656)
        &&& holds(plan, self.text_position, 2099200)
        &&& holds(plan, self.speech_position, 4198400)
        &&& holds(plan, self.speech_head, 8390656)
        &&& holds(plan, self.speaker_weight, 262144)
        &&& holds(plan, self.speaker_bias, 1024)
        &&& holds(plan, self.emotion_weight, 1024)
        &&& holds(plan, self.perceiver_query, 32768)
        &&& holds(plan, self.perceiver_norm_weight, 1024)
        &&& holds(plan, self.perceiver_norm_bias, 1024)
        &&& holds(plan, self.perceiver_q_weight, 1048576)
        &&& holds(plan, self.perceiver_q_bias, 1024)
        &&& holds(plan, self.perceiver_k_weight, 1048576)
        &&& holds(plan, self.perceiver_k_bias, 1024)
        &&& holds(plan, self.perceiver_v_weight, 1048576)
        &&& holds(plan, self.perceiver_v_bias, 1024)
        &&& holds(plan, self.perceiver_out_weight, 1048576)
        &&& holds(plan, self.perceiver_out_bias, 1024)
    }

    /// Requires the tensors.
    pub fn load(loader: &mut Loader) -> (weights: Self)
        requires
            old(loader).wf(),
        ensures
            final(loader).wf(),
            weights == Self::at(old(loader).tensors().len() as int),
            final(loader).tensors() == old(loader).tensors() + t3_frontend_tensors(),
    {
        let text_embedding: usize = loader.matrix("text_emb.weight".to_owned(), 2454, 1024, Complaint::labelled("Chatterbox T3 ".to_owned().concat("text_emb.weight")));
        let speech_embedding: usize = loader.matrix("speech_emb.weight".to_owned(), 8194, 1024, Complaint::labelled("Chatterbox T3 ".to_owned().concat("speech_emb.weight")));
        let text_position: usize = loader.matrix("text_pos_emb.emb.weight".to_owned(), 2050, 1024, Complaint::labelled("Chatterbox T3 ".to_owned().concat("text_pos_emb.emb.weight")));
        let speech_position: usize = loader.matrix("speech_pos_emb.emb.weight".to_owned(), 4100, 1024, Complaint::labelled("Chatterbox T3 ".to_owned().concat("speech_pos_emb.emb.weight")));
        let speech_head: usize = loader.matrix("speech_head.weight".to_owned(), 8194, 1024, Complaint::labelled("Chatterbox T3 ".to_owned().concat("speech_head.weight")));
        let speaker_weight: usize = loader.matrix("cond_enc.spkr_enc.weight".to_owned(), 1024, 256, Complaint::labelled("Chatterbox T3 ".to_owned().concat("cond_enc.spkr_enc.weight")));
        let speaker_bias: usize = loader.vector("cond_enc.spkr_enc.bias".to_owned(), 1024, Complaint::labelled("Chatterbox T3 ".to_owned().concat("cond_enc.spkr_enc.bias")));
        let emotion_weight: usize = loader.matrix("cond_enc.emotion_adv_fc.weight".to_owned(), 1024, 1, Complaint::labelled("Chatterbox T3 ".to_owned().concat("cond_enc.emotion_adv_fc.weight")));
        let perceiver_query: usize = loader.cube("cond_enc.perceiver.pre_attention_query".to_owned(), 1, 32, 1024, Complaint::labelled("Chatterbox T3 ".to_owned().concat("cond_enc.perceiver.pre_attention_query")));
        let perceiver_norm_weight: usize = loader.vector("cond_enc.perceiver.attn.norm.weight".to_owned(), 1024, Complaint::labelled("Chatterbox T3 ".to_owned().concat("cond_enc.perceiver.attn.norm.weight")));
        let perceiver_norm_bias: usize = loader.vector("cond_enc.perceiver.attn.norm.bias".to_owned(), 1024, Complaint::labelled("Chatterbox T3 ".to_owned().concat("cond_enc.perceiver.attn.norm.bias")));
        let perceiver_q_weight: usize = loader.matrix("cond_enc.perceiver.attn.to_q.weight".to_owned(), 1024, 1024, Complaint::labelled("Chatterbox T3 ".to_owned().concat("cond_enc.perceiver.attn.to_q.weight")));
        let perceiver_q_bias: usize = loader.vector("cond_enc.perceiver.attn.to_q.bias".to_owned(), 1024, Complaint::labelled("Chatterbox T3 ".to_owned().concat("cond_enc.perceiver.attn.to_q.bias")));
        let perceiver_k_weight: usize = loader.matrix("cond_enc.perceiver.attn.to_k.weight".to_owned(), 1024, 1024, Complaint::labelled("Chatterbox T3 ".to_owned().concat("cond_enc.perceiver.attn.to_k.weight")));
        let perceiver_k_bias: usize = loader.vector("cond_enc.perceiver.attn.to_k.bias".to_owned(), 1024, Complaint::labelled("Chatterbox T3 ".to_owned().concat("cond_enc.perceiver.attn.to_k.bias")));
        let perceiver_v_weight: usize = loader.matrix("cond_enc.perceiver.attn.to_v.weight".to_owned(), 1024, 1024, Complaint::labelled("Chatterbox T3 ".to_owned().concat("cond_enc.perceiver.attn.to_v.weight")));
        let perceiver_v_bias: usize = loader.vector("cond_enc.perceiver.attn.to_v.bias".to_owned(), 1024, Complaint::labelled("Chatterbox T3 ".to_owned().concat("cond_enc.perceiver.attn.to_v.bias")));
        let perceiver_out_weight: usize = loader.matrix("cond_enc.perceiver.attn.proj_out.weight".to_owned(), 1024, 1024, Complaint::labelled("Chatterbox T3 ".to_owned().concat("cond_enc.perceiver.attn.proj_out.weight")));
        let perceiver_out_bias: usize = loader.vector("cond_enc.perceiver.attn.proj_out.bias".to_owned(), 1024, Complaint::labelled("Chatterbox T3 ".to_owned().concat("cond_enc.perceiver.attn.proj_out.bias")));
        assert(loader.tensors() =~= old(loader).tensors() + t3_frontend_tensors());
        ChatterboxT3Frontend { text_embedding, speech_embedding, text_position, speech_position, speech_head, speaker_weight, speaker_bias, emotion_weight, perceiver_query, perceiver_norm_weight, perceiver_norm_bias, perceiver_q_weight, perceiver_q_bias, perceiver_k_weight, perceiver_k_bias, perceiver_v_weight, perceiver_v_bias, perceiver_out_weight, perceiver_out_bias }
    }
}

/// The positions `first`, `first + 1`, ... as integers.
pub open spec fn consecutive(first: int, n: nat) -> Seq<i32> {
    Seq::new(n, |i: int| (first + i) as i32)
}

/// Why tokens cannot be embedded from `position` on, if they cannot.
pub open spec fn embedding_fault(tokens: Seq<i32>, vocab: int, position: int) -> Option<Seq<char>> {
    if tokens.len() == 0 {
        Some("embedding token list is empty"@)
    } else if !all_in_vocabulary(tokens, vocab) {
        Some("embedding token is outside vocabulary"@)
    } else if position + tokens.len() > 4100 {
        Some("position embedding limit exceeded"@)
    } else {
        None
    }
}

/// Token embeddings plus position embeddings.
pub open spec fn positioned(table: Term, positions: Term, tokens: Seq<i32>, first: int) -> Term {
    let rows = tokens.len() as u32;
    add_f16(
        gather_rows_f16(table, Term::Integers(tokens), rows, 1024),
        gather_rows_f16(positions, Term::Integers(consecutive(first, tokens.len())), rows, 1024),
        (1024 * rows) as u32,
    )
}

/// Checks that tokens can be embedded from `position` on.
fn check_embedding(token_ids: &[i32], vocab_size: usize, position: usize) -> (outcome: Result<
    (),
    String,
>)
    requires
        position + token_ids@.len() <= usize::MAX,
    ensures
        match outcome {
            Ok(_) => embedding_fault(token_ids@, vocab_size as int, position as int) is None,
            Err(message) => embedding_fault(token_ids@, vocab_size as int, position as int) == Some(
                message@,
            ),
        },
{
    if token_ids.len() == 0 {
        return Err("embedding token list is empty".to_owned());
    }
    if !in_vocabulary(token_ids, vocab_size) {
        return Err("embedding token is outside vocabulary".to_owned());
    }
    if position + token_ids.len() > 4100 {
        return Err("position embedding limit exceeded".to_owned());
    }
    Ok(())
}

/// Embeds `token_ids` from `position` on. The result names the buffer of one
/// row per token.
fn positioned_embeddings(
    plan: &mut Plan,
    table: usize,
    vocab_size: usize,
    positions: usize,
    token_ids: &[i32],
    position: usize,
) -> (outcome: Result<usize, String>)
    requires
        old(plan).wf(),
        table < old(plan).values().len(),
        positions < old(plan).values().len(),
        position + token_ids@.len() <= usize::MAX,
    ensures
        final(plan).wf(),
        match outcome {
            Err(message) => {
                &&& embedding_fault(token_ids@, vocab_size as int, position as int) == Some(message@)
                &&& *final(plan) == *old(plan)
            },
            Ok(output) => {
                &&& embedding_fault(token_ids@, vocab_size as int, position as int) is None
                &&& extends(*old(plan), *final(plan))
                &&& final(plan).values().len() == old(plan).values().len() + 5
                &&& output < final(plan).values().len()
                &&& final(plan).sizes()[output as int] == 1024 * token_ids@.len()
                &&& final(plan).values()[output as int] == positioned(
                    old(plan).values()[table as int],
                    old(plan).values()[positions as int],
                    token_ids@,
                    position as int,
                )
            },
        },
{
    match check_embedding(token_ids, vocab_size, position) {
        Ok(_) => {},
        Err(message) => {
            return Err(message);
        },
    }
    let n: usize = token_ids.len();
    let rows: u32 = n as u32;
    let ids: usize = plan.upload(token_ids);
    let mut numbers: Vec<i32> = Vec::new();
    for i in 0..n
        invariant
            position + n <= 4100,
            numbers@.len() == i,
            forall|j: int| 0 <= j < i ==> #[trigger] numbers@[j] == position + j,
    {
        numbers.push((position + i) as i32);
    }
    assert(numbers@ =~= consecutive(position as int, n as nat));
    let position_ids: usize = plan.upload(numbers.as_slice());
    let embedded: usize = plan.zeros(n * 1024);
    let placed: usize = plan.zeros(n * 1024);
    let output: usize = plan.zeros(n * 1024);
    plan.gather_rows_f16(table, ids, embedded, rows, 1024);
    plan.gather_rows_f16(positions, position_ids, placed, rows, 1024);
    plan.add_f16(embedded, placed, output, 1024 * rows);
    Ok(output)
}

/// A layer normalisation of f16 rows.
pub open spec fn normed(x: Term, w: ChatterboxT3Frontend, plan: Plan, rows: u32) -> Term {
    layer_norm_f32in(
        copy_f16_to_f32(x, (1024 * rows) as u32),
        plan.values()[w.perceiver_norm_weight as int],
        plan.values()[w.perceiver_norm_bias as int],
        rows,
        1024,
        Scalar::Single(EPS_1E5),
    )
}

/// Four-headed attention of `query` to `context`, added to the query.
#[verifier::opaque]
pub open spec fn perceived(
    w: ChatterboxT3Frontend,
    plan: Plan,
    query: Term,
    query_rows: u32,
    context: Term,
    context_rows: u32,
) -> Term {
    let v = plan.values();
    let q = linear(
        normed(query, w, plan, query_rows),
        v[w.perceiver_q_weight as int],
        v[w.perceiver_q_bias as int],
        query_rows,
        1024,
        1024,
    );
    let k = linear(
        normed(context, w, plan, context_rows),
        v[w.perceiver_k_weight as int],
        v[w.perceiver_k_bias as int],
        context_rows,
        1024,
        1024,
    );
    let value = linear(
        normed(context, w, plan, context_rows),
        v[w.perceiver_v_weight as int],
        v[w.perceiver_v_bias as int],
        context_rows,
        1024,
        1024,
    );
    let out = mha_naive_full(
        q,
        k,
        value,
        256,
        4,
        4,
        query_rows,
        context_rows,
        Scalar::InverseSqrt(256),
        Scalar::Single(0),
    );
    add_f16(
        query,
        linear(
            out,
            v[w.perceiver_out_weight as int],
            v[w.perceiver_out_bias as int],
            query_rows,
            1024,
            1024,
        ),
        (1024 * query_rows) as u32,
    )
}

impl ChatterboxT3Frontend {
    /// Runs one perceiver attention. The result names the buffer of its
    /// output rows.
    fn perceiver_attention(
        &self,
        plan: &mut Plan,
        query: usize,
        query_tokens: usize,
        context: usize,
        context_tokens: usize,
        Ghost(start): Ghost<Plan>,
    ) -> (output: usize)
        requires
            old(plan).wf(),
            extends(start, *old(plan)),
            self.fits(start),
            1024 * query_tokens <= u32::MAX,
            1024 * context_tokens <= u32::MAX,
            holds(*old(plan), query, 1024 * query_tokens),
            holds(*old(plan), context, 1024 * context_tokens),
        ensures
            final(plan).wf(),
            extends(*old(plan), *final(plan)),
            final(plan).values().len() == old(plan).values().len() + 10,
            output < final(plan).values().len(),
            final(plan).sizes()[output as int] == 1024 * query_tokens,
            final(plan).values()[output as int] == perceived(
                *self,
                start,
                old(plan).values()[query as int],
                query_tokens as u32,
                old(plan).values()[context as int],
                context_tokens as u32,
            ),
    {
        proof {
            reveal(perceived);
        }
        let q_rows: u32 = query_tokens as u32;
        let c_rows: u32 = context_tokens as u32;
        let query_f32: usize = plan.zeros(query_tokens * 1024);
        let context_f32: usize = plan.zeros(context_tokens * 1024);
        plan.copy_f16_to_f32(query, query_f32, 1024 * q_rows);
        plan.copy_f16_to_f32(context, context_f32, 1024 * c_rows);
        let query_norm: usize = plan.zeros(query_tokens * 1024);
        let context_norm: usize = plan.zeros(context_tokens * 1024);
        plan.layer_norm_f32in(
            query_f32,
            self.perceiver_norm_weight,
            self.perceiver_norm_bias,
            query_norm,
            q_rows,
            1024,
            Scalar::Single(EPS_1E5),
        );
        plan.layer_norm_f32in(
            context_f32,
            self.perceiver_norm_weight,
            self.perceiver_norm_bias,
            context_norm,
            c_rows,
            1024,
            Scalar::Single(EPS_1E5),
        );
        let q: usize = run_linear(
            plan,
            query_norm,
            self.perceiver_q_weight,
            self.perceiver_q_bias,
            q_rows,
            1024,
            1024,
        );
        let k: usize = run_linear(
            plan,
            context_norm,
            self.perceiver_k_weight,
            self.perceiver_k_bias,
            c_rows,
            1024,
            1024,
        );
        let v: usize = run_linear(
            plan,
            context_norm,
            self.perceiver_v_weight,
            self.perceiver_v_bias,
            c_rows,
            1024,
            1024,
        );
        let attention: usize = plan.zeros(query_tokens * 1024);
        plan.mha_naive_full(
            q,
            k,
            v,
            attention,
            256,
            4,
            4,
            q_rows,
            c_rows,
            Scalar::InverseSqrt(256),
            Scalar::Single(0),
        );
        let projected: usize = run_linear(
            plan,
            attention,
            self.perceiver_out_weight,
            self.perceiver_out_bias,
            q_rows,
            1024,
            1024,
        );
        let output: usize = plan.zeros(query_tokens * 1024);
        plan.add_f16(query, projected, output, 1024 * q_rows);
        output
    }

    /// Thirty-two learned queries attend to the prompt, then to each other.
    pub open spec fn perceiver_output(self, plan: Plan, prompt: Term, rows: u32) -> Term {
        let query = copy_f16_at(
            plan.values()[self.perceiver_query as int],
            Term::Zeros(32768),
            32768,
            0,
        );
        let cross = perceived(self, plan, query, 32, prompt, rows);
        perceived(self, plan, cross, 32, cross, 32)
    }

    /// Runs the perceiver over the prompt. The result names the buffer of 32
    /// rows.
    fn perceiver(
        &self,
        plan: &mut Plan,
        prompt: usize,
        prompt_tokens: usize,
        Ghost(start): Ghost<Plan>,
    ) -> (output: usize)
        requires
            old(plan).wf(),
            extends(start, *old(plan)),
            self.fits(start),
            1024 * prompt_tokens <= u32::MAX,
            holds(*old(plan), prompt, 1024 * prompt_tokens),
        ensures
            final(plan).wf(),
            extends(*old(plan), *final(plan)),
            final(plan).values().len() == old(plan).values().len() + 21,
            output < final(plan).values().len(),
            final(plan).sizes()[output as int] == 32768,
            final(plan).values()[output as int] == self.perceiver_output(
                start,
                old(plan).values()[prompt as int],
                prompt_tokens as u32,
            ),
    {
        let query: usize = plan.zeros(32768);
        plan.copy_f16_at(self.perceiver_query, query, 32768, 0);
        let cross: usize = self.perceiver_attention(
            plan,
            query,
            32,
            prompt,
            prompt_tokens,
            Ghost(start),
        );
        self.perceiver_attention(plan, cross, 32, cross, 32, Ghost(start))
    }
}

/// The buffers of the conditioning rows: one of the speaker, 32 of the prompt
/// and one of the emotion.
#[derive(Clone, Copy, Debug, PartialEq, Eq, Structural)]
pub struct ConditionRows {
    pub speaker: usize,
    pub prompt: usize,
    pub emotion: usize,
}

/// The buffers of a prefix: the conditioning, the text, and the first speech
/// token, which stands twice at the end.
#[derive(Clone, Copy, Debug, PartialEq, Eq, Structural)]
pub struct PrefixRows {
    pub condition: ConditionRows,
    pub text: usize,
    pub bos: usize,
}

/// Why conditioning cannot be embedded, if it cannot.
pub open spec fn condition_fault(speaker_len: usize, prompt: Seq<i32>) -> Option<Seq<char>> {
    if speaker_len != 256 {
        Some("Chatterbox speaker embedding must have 256 values"@)
    } else {
        embedding_fault(prompt, 8194, 0)
    }
}

/// Why a prefix cannot be built, if it cannot.
pub open spec fn prefix_fault(text: Seq<i32>, speaker_len: usize, prompt: Seq<i32>) -> Option<
    Seq<char>,
> {
    if text.len() == 0 {
        Some("Chatterbox text tokens are empty"@)
    } else if text.len() > 2050 {
        Some("Chatterbox text token limit exceeded"@)
    } else if condition_fault(speaker_len, prompt) is Some {
        condition_fault(speaker_len, prompt)
    } else {
        embedding_fault(text, 2454, 0)
    }
}

impl ChatterboxT3Frontend {
    /// What the conditioning buffers hold.
    pub open spec fn conditioned(
        self,
        plan: Plan,
        after: Plan,
        rows: ConditionRows,
        speaker: Term,
        emotion: Term,
        prompt: Seq<i32>,
    ) -> bool {
        let v = plan.values();
        &&& sized(after, rows.speaker, 1024)
        &&& sized(after, rows.prompt, 32768)
        &&& sized(after, rows.emotion, 1024)
        &&& after.values()[rows.speaker as int] == add_bias_f16_inplace(
            gemv_f16(speaker, v[self.speaker_weight as int], 1024, 256),
            v[self.speaker_bias as int],
            1,
            1024,
        )
        &&& after.values()[rows.emotion as int] == gemv_f16(
            emotion,
            v[self.emotion_weight as int],
            1024,
            1,
        )
        &&& after.values()[rows.prompt as int] == self.perceiver_output(
            plan,
            positioned(
                v[self.speech_embedding as int],
                v[self.speech_position as int],
                prompt,
                0,
            ),
            prompt.len() as u32,
        )
    }

    /// Embeds the conditioning. The speaker embedding and the emotion become
    /// given buffers, in this order.
    fn condition_embeddings(
        &self,
        plan: &mut Plan,
        speaker_len: usize,
        prompt_tokens: &[i32],
    ) -> (outcome: Result<ConditionRows, String>)
        requires
            old(plan).wf(),
            self.fits(*old(plan)),
        ensures
            final(plan).wf(),
            match outcome {
                Err(message) => condition_fault(speaker_len, prompt_tokens@) == Some(message@)
                    && *final(plan) == *old(plan),
                Ok(rows) => {
                    &&& condition_fault(speaker_len, prompt_tokens@) is None
                    &&& extends(*old(plan), *final(plan))
                    &&& final(plan).values().len() == old(plan).values().len() + 30
                    &&& self.conditioned(
                        *old(plan),
                        *final(plan),
                        rows,
                        Term::Given(old(plan).steps().len()),
                        Term::Given(old(plan).steps().len() + 1),
                        prompt_tokens@,
                    )
                },
            },
    {
        if speaker_len != 256 {
            return Err("Chatterbox speaker embedding must have 256 values".to_owned());
        }
        let prompt_len: usize = prompt_tokens.len();
        match check_embedding(prompt_tokens, SPEECH_VOCAB_SIZE, 0) {
            Ok(_) => {},
            Err(message) => {
                return Err(message);
            },
        }
        let ghost start = *plan;
        let speaker: usize = plan.given(speaker_len);
        let emotion: usize = plan.given(1);
        let speaker_out: usize = plan.zeros(1024);
        plan.gemv_f16(speaker, self.speaker_weight, speaker_out, 1024, 256);
        plan.add_bias_f16_inplace(speaker_out, self.speaker_bias, 1, 1024);
        let emotion_out: usize = plan.zeros(1024);
        plan.gemv_f16(emotion, self.emotion_weight, emotion_out, 1024, 1);
        let embedded: usize = match positioned_embeddings(
            plan,
            self.speech_embedding,
            SPEECH_VOCAB_SIZE,
            self.speech_position,
            prompt_tokens,
            0,
        ) {
            Err(message) => {
                return Err(message);
            },
            Ok(embedded) => embedded,
        };
        let prompt: usize = self.perceiver(plan, embedded, prompt_len, Ghost(start));
        Ok(ConditionRows { speaker: speaker_out, prompt, emotion: emotion_out })
    }

    /// Embeds everything that stands in front of the generated speech. The
    /// speaker embedding and the emotion become given buffers, in this order.
    pub fn build_prefix(
        &self,
        plan: &mut Plan,
        text_tokens: &[i32],
        speaker_len: usize,
        prompt_tokens: &[i32],
    ) -> (outcome: Result<PrefixRows, String>)
        requires
            old(plan).wf(),
            self.fits(*old(plan)),
        ensures
            final(plan).wf(),
            match outcome {
                Err(message) => prefix_fault(text_tokens@, speaker_len, prompt_tokens@) == Some(
                    message@,
                ) && *final(plan) == *old(plan),
                Ok(rows) => {
                    &&& prefix_fault(text_tokens@, speaker_len, prompt_tokens@) is None
                    &&& extends(*old(plan), *final(plan))
                    &&& self.conditioned(
                        *old(plan),
                        *final(plan),
                        rows.condition,
                        Term::Given(old(plan).steps().len()),
                        Term::Given(old(plan).steps().len() + 1),
                        prompt_tokens@,
                    )
                    &&& sized(*final(plan), rows.text, (1024 * text_tokens@.len()) as int)
                    &&& sized(*final(plan), rows.bos, 1024)
                    &&& final(plan).values()[rows.text as int] == positioned(
                        old(plan).values()[self.text_embedding as int],
                        old(plan).values()[self.text_position as int],
                        text_tokens@,
                        0,
                    )
                    &&& final(plan).values()[rows.bos as int] == positioned(
                        old(plan).values()[self.speech_embedding as int],
                        old(plan).values()[self.speech_position as int],
                        seq![6561i32],
                        0,
                    )
                },
            },
    {
        if text_tokens.len() == 0 {
            return Err("Chatterbox text tokens are empty".to_owned());
        }
        if text_tokens.len() > MAX_TEXT_TOKENS + 2 {
            return Err("Chatterbox text token limit exceeded".to_owned());
        }
        let prompt_len: usize = prompt_tokens.len();
        if speaker_len == 256 && check_embedding(prompt_tokens, SPEECH_VOCAB_SIZE, 0).is_ok() {
            match check_embedding(text_tokens, TEXT_VOCAB_SIZE, 0) {
                Ok(_) => {},
                Err(message) => {
                    return Err(message);
                },
            }
        }
        let condition = match self.condition_embeddings(plan, speaker_len, prompt_tokens) {
            Err(message) => {
                return Err(message);
            },
            Ok(condition) => condition,
        };
        let text: usize = match positioned_embeddings(
            plan,
            self.text_embedding,
            TEXT_VOCAB_SIZE,
            self.text_position,
            text_tokens,
            0,
        ) {
            Err(message) => {
                return Err(message);
            },
            Ok(text) => text,
        };
        let start_token: Vec<i32> = vec![6561i32];
        assert(start_token@ =~= seq![6561i32]);
        let bos: usize = match positioned_embeddings(
            plan,
            self.speech_embedding,
            SPEECH_VOCAB_SIZE,
            self.speech_position,
            start_token.as_slice(),
            0,
        ) {
            Err(message) => {
                return Err(message);
            },
            Ok(bos) => bos,
        };
        Ok(PrefixRows { condition, text, bos })
    }

    /// Embeds one generated speech token at `position`. The result names the
    /// buffer of its row.
    pub fn speech_embedding(&self, plan: &mut Plan, token: i32, position: usize) -> (outcome: Result<
        usize,
        String,
    >)
        requires
            old(plan).wf(),
            self.fits(*old(plan)),
            position < usize::MAX,
        ensures
            final(plan).wf(),
            match outcome {
                Err(message) => {
                    &&& embedding_fault(seq![token], 8194, position as int) == Some(message@)
                    &&& *final(plan) == *old(plan)
                },
                Ok(output) => {
                    &&& embedding_fault(seq![token], 8194, position as int) is None
                    &&& extends(*old(plan), *final(plan))
                    &&& sized(*final(plan), output, 1024)
                    &&& final(plan).values()[output as int] == positioned(
                        old(plan).values()[self.speech_embedding as int],
                        old(plan).values()[self.speech_position as int],
                        seq![token],
                        position as int,
                    )
                },
            },
    {
        let tokens: Vec<i32> = vec![token];
        assert(tokens@ =~= seq![token]);
        positioned_embeddings(
            plan,
            self.speech_embedding,
            SPEECH_VOCAB_SIZE,
            self.speech_position,
            tokens.as_slice(),
            position,
        )
    }

    /// Scores every speech token for one state. The state becomes a given
    /// buffer; the result names the buffer of the scores.
    pub fn speech_logits(&self, plan: &mut Plan, hidden_len: usize) -> (outcome: Result<
        usize,
        String,
    >)
        requires
            old(plan).wf(),
            self.fits(*old(plan)),
        ensures
            final(plan).wf(),
            match outcome {
                Err(message) => {
                    &&& hidden_len != 1024
                    &&& message@ == "T3 logit input has "@ + decimal(hidden_len as nat)
                        + " values, expected 1024"@
                    &&& *final(plan) == *old(plan)
                },
                Ok(output) => {
                    &&& hidden_len == 1024
                    &&& extends(*old(plan), *final(plan))
                    &&& sized(*final(plan), output, 8194)
                    &&& final(plan).values()[output as int] == gemv_f16(
                        Term::Given(old(plan).steps().len()),
                        old(plan).values()[self.speech_head as int],
                        8194,
                        1024,
                    )
                },
            },
    {
        if hidden_len != 1024 {
            return Err(
                "T3 logit input has ".to_owned().concat(&to_decimal(hidden_len as u64)).concat(
                    " values, expected 1024",
                ),
            );
        }
        let hidden: usize = plan.given(hidden_len);
        let logits: usize = plan.zeros(SPEECH_VOCAB_SIZE);
        plan.gemv_f16(hidden, self.speech_head, logits, 8194, 1024);
        Ok(logits)
    }

    /// Scores every speech token for two states at once. Both states become
    /// one given buffer; the result names the buffer of both rows of scores.
    pub fn speech_logits_pair(&self, plan: &mut Plan, len_a: usize, len_b: usize) -> (outcome: Result<
        usize,
        String,
    >)
        requires
            old(plan).wf(),
            self.fits(*old(plan)),
        ensures
            final(plan).wf(),
            match outcome {
                Err(message) => {
                    &&& len_a != 1024 || len_b != 1024
                    &&& message@ == "paired T3 logits expect two hidden rows"@
                    &&& *final(plan) == *old(plan)
                },
                Ok(output) => {
                    &&& len_a == 1024 && len_b == 1024
                    &&& extends(*old(plan), *final(plan))
                    &&& sized(*final(plan), output, 16388)
                    &&& final(plan).values()[output as int] == matmul_f16(
                        Term::Given(old(plan).steps().len()),
                        old(plan).values()[self.speech_head as int],
                        2,
                        8194,
                        1024,
                    )
                },
            },
    {
        if len_a != 1024 || len_b != 1024 {
            return Err("paired T3 logits expect two hidden rows".to_owned());
        }
        let hidden: usize = plan.given(2048);
        let logits: usize = plan.zeros(2 * SPEECH_VOCAB_SIZE);
        plan.matmul_f16(hidden, self.speech_head, logits, 2, 8194, 1024);
        Ok(logits)
    }
}

/// A prefix on the host, and the same with the text blanked out.
pub struct ChatterboxT3Prefix<T> {
    pub conditional: Vec<T>,
    pub unconditional: Vec<T>,
    pub tokens: usize,
}

/// Appends a copy of `more`.
fn extend<T: Copy>(out: &mut Vec<T>, more: &[T])
    ensures
        final(out)@ == old(out)@ + more@,
{
    let ghost before = out@;
    for i in 0..more.len()
        invariant
            out@ == before + more@.take(i as int),
    {
        out.push(more[i]);
        assert(more@.take(i + 1) =~= more@.take(i as int).push(more@[i as int]));
        assert(before + more@.take(i as int).push(more@[i as int]) =~= (before + more@.take(
            i as int,
        )).push(more@[i as int]));
    }
    assert(more@.take(more@.len() as int) =~= more@);
    assert(before + more@.take(0) =~= before);
}

/// Puts the prefix together: conditioning, text, and the first speech token
/// twice; in the unconditional prefix the text is `zero` throughout.
pub fn assemble_prefix<T: Copy>(condition: &[T], text: &[T], bos: &[T], zero: T) -> (prefix:
    ChatterboxT3Prefix<T>)
    requires
        condition@.len() + text@.len() <= usize::MAX,
        condition@.len() / 1024 + text@.len() / 1024 + 2 <= usize::MAX,
    ensures
        prefix.conditional@ == condition@ + text@ + bos@ + bos@,
        prefix.unconditional@ == condition@ + Seq::new(text@.len(), |i: int| zero) + bos@ + bos@,
        prefix.tokens == condition@.len() / 1024 + text@.len() / 1024 + 2,
{
    let mut conditional: Vec<T> = Vec::new();
    assert(conditional@ =~= Seq::empty());
    extend(&mut conditional, condition);
    assert(Seq::<T>::empty() + condition@ =~= condition@);
    extend(&mut conditional, text);
    extend(&mut conditional, bos);
    extend(&mut conditional, bos);
    let mut unconditional: Vec<T> = Vec::new();
    assert(unconditional@ =~= Seq::empty());
    extend(&mut unconditional, condition);
    for i in 0..text.len()
        invariant
            unconditional@ == condition@ + Seq::new(i as nat, |j: int| zero),
    {
        unconditional.push(zero);
        assert(unconditional@ =~= condition@ + Seq::new((i + 1) as nat, |j: int| zero));
    }
    extend(&mut unconditional, bos);
    extend(&mut unconditional, bos);
    ChatterboxT3Prefix {
        conditional,
        unconditional,
        tokens: condition.len() / 1024 + text.len() / 1024 + 2,
    }
}

/// The two prefixes have the same length and differ in nothing but the text.
pub proof fn law_prefixes_differ_only_in_the_text<T>(
    condition: Seq<T>,
    text: Seq<T>,
    bos: Seq<T>,
    zero: T,
    i: int,
)
    requires
        0 <= i < condition.len() || condition.len() + text.len() <= i < condition.len()
            + text.len() + 2 * bos.len(),
    ensures
        ({
            let conditional = condition + text + bos + bos;
            let unconditional = condition + Seq::new(text.len(), |j: int| zero) + bos + bos;
            conditional.len() == unconditional.len() && conditional[i] == unconditional[i]
        }),
{
}

impl ChatterboxT3Frontend {
    /// Loaded weights exist at their full size.
    pub proof fn law_loaded_weights_fit(plan: Plan, base: int)
        requires
            stores(plan, base, t3_frontend_tensors()),
        ensures
            Self::at(base).fits(plan),
    {
        let tensors = t3_frontend_tensors();
        lemma_stored2(plan, base, tensors, 0, 2454, 1024);
        lemma_stored2(plan, base, tensors, 1, 8194, 1024);
        lemma_stored2(plan, base, tensors, 2, 2050, 1024);
        lemma_stored2(plan, base, tensors, 3, 4100, 1024);
        lemma_stored2(plan, base, tensors, 4, 8194, 1024);
        lemma_stored2(plan, base, tensors, 5, 1024, 256);
        lemma_stored1(plan, base, tensors, 6, 1024);
        lemma_stored2(plan, base, tensors, 7, 1024, 1);
        lemma_stored3(plan, base, tensors, 8, 1, 32, 1024);
        lemma_stored1(plan, base, tensors, 9, 1024);
        lemma_stored1(plan, base, tensors, 10, 1024);
        lemma_stored2(plan, base, tensors, 11, 1024, 1024);
        lemma_stored1(plan, base, tensors, 12, 1024);
        lemma_stored2(plan, base, tensors, 13, 1024, 1024);
        lemma_stored1(plan, base, tensors, 14, 1024);
        lemma_stored2(plan, base, tensors, 15, 1024, 1024);
        lemma_stored1(plan, base, tensors, 16, 1024);
        lemma_stored2(plan, base, tensors, 17, 1024, 1024);
        lemma_stored1(plan, base, tensors, 18, 1024);
    }
}

} // verus!
