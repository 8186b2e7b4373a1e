//! Text and codec embeddings and the projections around the talker stack.
use vstd::prelude::*;
use vstd::string::*;
use crate::device::{Plan, Term, extends, holds, sized};
use crate::device::value::{
    add_bias_f16_inplace, argmax_f16, gather_rows_f16, gemv_f16, matmul_f16, silu_act_f16,
};
use crate::qwen3_tts::config::TalkerConfig;
use crate::text::{decimal, signed_decimal, to_decimal, to_signed_decimal};
use crate::weights::{Complaint, Loader, Tensor, expected, lemma_stored1, lemma_stored2, stores};

verus! {

/// The weights around the talker stack, as buffers.
#[derive(Clone, Copy, Debug, PartialEq, Eq, Structural)]
pub struct TalkerFrontend {
    pub text_embedding: usize,
    pub text_fc1_weight: usize,
    pub text_fc1_bias: usize,
    pub text_fc2_weight: usize,
    pub text_fc2_bias: usize,
    pub codec_embedding: usize,
    pub codec_head: usize,
    pub text_vocab_size: usize,
    pub text_hidden_size: usize,
    pub hidden_size: usize,
    pub codec_vocab_size: usize,
}

/// The tensors of the frontend in loading order.
pub open spec fn frontend_tensors(c: TalkerConfig) -> Seq<Tensor> {
    let text = c.text_hidden_size;
    let hidden = c.hidden_size;
    seq![
        expected("talker.model.text_embedding.weight"@, seq![c.text_vocab_size, text]),
        expected("talker.text_projection.linear_fc1.weight"@, seq![text, text]),
        expected("talker.text_projection.linear_fc1.bias"@, seq![text]),
        expected("talker.text_projection.linear_fc2.weight"@, seq![hidden, text]),
        expected("talker.text_projection.linear_fc2.bias"@, seq![hidden]),
        expected("talker.model.codec_embedding.weight"@, seq![c.vocab_size, hidden]),
        expected("talker.codec_head.weight"@, seq![c.vocab_size, hidden]),
    ]
}

/// Whether `token` is an index of a table of `vocab` rows.
pub open spec fn in_vocabulary(token: i32, vocab: usize) -> bool {
    0 <= token < vocab
}

/// The first token that is not in the vocabulary.
pub open spec fn first_outside(tokens: Seq<i32>, vocab: usize) -> Option<i32>
    decreases tokens.len(),
{
    if tokens.len() == 0 {
        None
    } else if first_outside(tokens.drop_last(), vocab) is Some {
        first_outside(tokens.drop_last(), vocab)
    } else if in_vocabulary(tokens.last(), vocab) {
        None
    } else {
        Some(tokens.last())
    }
}

/// Why `tokens` cannot be looked up in the `kind` table, if they cannot.
pub open spec fn token_fault(kind: Seq<char>, tokens: Seq<i32>, vocab: usize) -> Option<Seq<char>> {
    if tokens.len() == 0 {
        Some("at least one "@ + kind + " token is required"@)
    } else {
        match first_outside(tokens, vocab) {
            Some(token) => Some(
                kind + " token "@ + signed_decimal(token as int) + " is outside 0.."@ + decimal(
                    vocab as nat,
                ),
            ),
            None => None,
        }
    }
}

/// All tokens of an accepted list are in the vocabulary.
pub proof fn lemma_none_outside(tokens: Seq<i32>, vocab: usize)
    requires
        first_outside(tokens, vocab) is None,
    ensures
        forall|i: int| 0 <= i < tokens.len() ==> in_vocabulary(#[trigger] tokens[i], vocab),
    decreases tokens.len(),
{
    if tokens.len() > 0 {
        lemma_none_outside(tokens.drop_last(), vocab);
        assert forall|i: int| 0 <= i < tokens.len() implies in_vocabulary(
            #[trigger] tokens[i],
            vocab,
        ) by {
            if i < tokens.len() - 1 {
                assert(tokens[i] == tokens.drop_last()[i]);
            }
        }
    }
}

/// A fault in a prefix is the fault of the whole list.
proof fn lemma_first_outside_prefix(tokens: Seq<i32>, vocab: usize, n: int)
    requires
        0 <= n <= tokens.len(),
        first_outside(tokens.take(n), vocab) is Some,
    ensures
        first_outside(tokens, vocab) == first_outside(tokens.take(n), vocab),
    decreases tokens.len() - n,
{
    if n == tokens.len() {
        assert(tokens.take(n) =~= tokens);
    } else {
        assert(tokens.take(n + 1).drop_last() =~= tokens.take(n));
        lemma_first_outside_prefix(tokens, vocab, n + 1);
    }
}

/// Checks that every token can be looked up in the `kind` table.
fn check_tokens(kind: &str, tokens: &[i32], vocab: usize) -> (outcome: Result<(), String>)
    ensures
        outcome is Ok <==> token_fault(kind@, tokens@, vocab) is None,
        outcome matches Err(message) ==> token_fault(kind@, tokens@, vocab) == Some(message@),
{
    if tokens.len() == 0 {
        return Err("at least one ".to_owned().concat(kind).concat(" token is required"));
    }
    for i in 0..tokens.len()
        invariant
            tokens@.len() > 0,
            first_outside(tokens@.take(i as int), vocab) is None,
    {
        let token: i32 = tokens[i];
        proof {
            assert(tokens@.take(i + 1).drop_last() =~= tokens@.take(i as int));
            assert(tokens@.take(i + 1).last() == token);
        }
        if token < 0 || token as usize >= vocab {
            proof {
                lemma_first_outside_prefix(tokens@, vocab, i + 1);
            }
            return Err(
                kind.to_owned().concat(" token ").concat(&to_signed_decimal(token)).concat(
                    " is outside 0..",
                ).concat(&to_decimal(vocab as u64)),
            );
        }
    }
    assert(tokens@.take(tokens@.len() as int) =~= tokens@);
    Ok(())
}

/// Two linear maps with a SiLU between them, over looked-up text embeddings.
pub open spec fn projected_text(f: TalkerFrontend, plan: Plan, ids: Term, rows: u32) -> Term {
    let v = plan.values();
    let text = f.text_hidden_size as u32;
    let hidden = f.hidden_size as u32;
    let embedded = gather_rows_f16(v[f.text_embedding as int], ids, rows, text);
    let first = add_bias_f16_inplace(
        matmul_f16(embedded, v[f.text_fc1_weight as int], rows, text, text),
        v[f.text_fc1_bias as int],
        rows,
        text,
    );
    add_bias_f16_inplace(
        matmul_f16(
            silu_act_f16(first, (rows * text) as u32),
            v[f.text_fc2_weight as int],
            rows,
            hidden,
            text,
        ),
        v[f.text_fc2_bias as int],
        rows,
        hidden,
    )
}

impl TalkerFrontend {
    /// The weights exist at their full size.
    pub open spec fn fits(self, plan: Plan) -> bool {
        &&& holds(plan, self.text_embedding, self.text_vocab_size * self.text_hidden_size)
        &&& holds(plan, self.text_fc1_weight, self.text_hidden_size * self.text_hidden_size)
        &&& holds(plan, self.text_fc1_bias, self.text_hidden_size as int)
        &&& holds(plan, self.text_fc2_weight, self.hidden_size * self.text_hidden_size)
        &&& holds(plan, self.text_fc2_bias, self.hidden_size as int)
        &&& holds(plan, self.codec_embedding, self.codec_vocab_size * self.hidden_size)
        &&& holds(plan, self.codec_head, self.codec_vocab_size * self.hidden_size)
    }

    /// Requires the weights of the frontend.
    pub fn load(loader: &mut Loader, config: &TalkerConfig) -> (frontend: Self)
        requires
            old(loader).wf(),
            config.text_vocab_size * config.text_hidden_size <= usize::MAX,
            config.text_hidden_size * config.text_hidden_size <= usize::MAX,
            config.hidden_size * config.text_hidden_size <= usize::MAX,
            config.vocab_size * config.hidden_size <= usize::MAX,
        ensures
            final(loader).wf(),
            final(loader).tensors() == old(loader).tensors() + frontend_tensors(*config),
            ({
                let base = old(loader).tensors().len();
                frontend == TalkerFrontend {
                    text_embedding: base as usize,
                    text_fc1_weight: (base + 1) as usize,
                    text_fc1_bias: (base + 2) as usize,
                    text_fc2_weight: (base + 3) as usize,
                    text_fc2_bias: (base + 4) as usize,
                    codec_embedding: (base + 5) as usize,
                    codec_head: (base + 6) as usize,
                    text_vocab_size: config.text_vocab_size,
                    text_hidden_size: config.text_hidden_size,
                    hidden_size: config.hidden_size,
                    codec_vocab_size: config.vocab_size,
                }
            }),
    {
        let text: usize = config.text_hidden_size;
        let hidden: usize = config.hidden_size;
        let text_embedding: usize = loader.matrix(
            "talker.model.text_embedding.weight".to_owned(),
            config.text_vocab_size,
            text,
            Complaint::expected(),
        );
        let text_fc1_weight: usize = loader.matrix(
            "talker.text_projection.linear_fc1.weight".to_owned(),
            text,
            text,
            Complaint::expected(),
        );
        let text_fc1_bias: usize = loader.vector(
            "talker.text_projection.linear_fc1.bias".to_owned(),
            text,
            Complaint::expected(),
        );
        let text_fc2_weight: usize = loader.matrix(
            "talker.text_projection.linear_fc2.weight".to_owned(),
            hidden,
            text,
            Complaint::expected(),
        );
        let text_fc2_bias: usize = loader.vector(
            "talker.text_projection.linear_fc2.bias".to_owned(),
            hidden,
            Complaint::expected(),
        );
        let codec_embedding: usize = loader.matrix(
            "talker.model.codec_embedding.weight".to_owned(),
            config.vocab_size,
            hidden,
            Complaint::expected(),
        );
        let codec_head: usize = loader.matrix(
            "talker.codec_head.weight".to_owned(),
            config.vocab_size,
            hidden,
            Complaint::expected(),
        );
        assert(loader.tensors() =~= old(loader).tensors() + frontend_tensors(*config));
        TalkerFrontend {
            text_embedding,
            text_fc1_weight,
            text_fc1_bias,
            text_fc2_weight,
            text_fc2_bias,
            codec_embedding,
            codec_head,
            text_vocab_size: config.text_vocab_size,
            text_hidden_size: text,
            hidden_size: hidden,
            codec_vocab_size: config.vocab_size,
        }
    }

    /// Embeds and projects text tokens into talker states. The tokens are
    /// uploaded; the result names the buffer of the projected rows.
    pub fn project_text_tokens(&self, plan: &mut Plan, token_ids: &[i32]) -> (outcome: Result<
        usize,
        String,
    >)
        requires
            old(plan).wf(),
            self.fits(*old(plan)),
            token_ids@.len() * self.text_hidden_size <= u32::MAX,
            token_ids@.len() * self.hidden_size <= u32::MAX,
            token_ids@.len() <= u32::MAX,
            self.text_hidden_size <= u32::MAX,
            self.hidden_size <= u32::MAX,
        ensures
            final(plan).wf(),
            match outcome {
                Err(message) => {
                    &&& token_fault("text"@, token_ids@, self.text_vocab_size) == Some(message@)
                    &&& *final(plan) == *old(plan)
                },
                Ok(output) => {
                    &&& token_fault("text"@, token_ids@, self.text_vocab_size) is None
                    &&& extends(*old(plan), *final(plan))
                    &&& sized(*final(plan), output, token_ids@.len() * self.hidden_size)
                    &&& final(plan).values()[output as int] == projected_text(
                        *self,
                        *old(plan),
                        Term::Integers(token_ids@),
                        token_ids@.len() as u32,
                    )
                },
            },
    {
        match check_tokens("text", token_ids, self.text_vocab_size) {
            Ok(_) => {},
            Err(message) => {
                return Err(message);
            },
        }
        let rows: usize = token_ids.len();
        let text: u32 = self.text_hidden_size as u32;
        let hidden: u32 = self.hidden_size as u32;
        let ids: usize = plan.upload(token_ids);
        let embeddings: usize = plan.zeros(rows * self.text_hidden_size);
        plan.gather_rows_f16(self.text_embedding, ids, embeddings, rows as u32, text);
        let fc1: usize = plan.zeros(rows * self.text_hidden_size);
        plan.matmul_f16(embeddings, self.text_fc1_weight, fc1, rows as u32, text, text);
        plan.add_bias_f16_inplace(fc1, self.text_fc1_bias, rows as u32, text);
        let activated: usize = plan.zeros(rows * self.text_hidden_size);
        plan.silu_act_f16(fc1, activated, (rows * self.text_hidden_size) as u32);
        let projected: usize = plan.zeros(rows * self.hidden_size);
        plan.matmul_f16(activated, self.text_fc2_weight, projected, rows as u32, hidden, text);
        plan.add_bias_f16_inplace(projected, self.text_fc2_bias, rows as u32, hidden);
        Ok(projected)
    }

    /// Looks up talker codec embeddings. The tokens are uploaded;
    /// the result names the buffer of the embedding rows.
    pub fn codec_embeddings(&self, plan: &mut Plan, token_ids: &[i32]) -> (outcome: Result<
        usize,
        String,
    >)
        requires
            old(plan).wf(),
            self.fits(*old(plan)),
            token_ids@.len() * self.hidden_size <= usize::MAX,
            token_ids@.len() <= u32::MAX,
            self.hidden_size <= u32::MAX,
        ensures
            final(plan).wf(),
            match outcome {
                Err(message) => {
                    &&& token_fault("codec"@, token_ids@, self.codec_vocab_size) == Some(message@)
                    &&& *final(plan) == *old(plan)
                },
                Ok(output) => {
                    &&& token_fault("codec"@, token_ids@, self.codec_vocab_size) is None
                    &&& extends(*old(plan), *final(plan))
                    &&& sized(*final(plan), output, token_ids@.len() * self.hidden_size)
                    &&& final(plan).values()[output as int] == gather_rows_f16(
                        old(plan).values()[self.codec_embedding as int],
                        Term::Integers(token_ids@),
                        token_ids@.len() as u32,
                        self.hidden_size as u32,
                    )
                },
            },
    {
        match check_tokens("codec", token_ids, self.codec_vocab_size) {
            Ok(_) => {},
            Err(message) => {
                return Err(message);
            },
        }
        let rows: usize = token_ids.len();
        let ids: usize = plan.upload(token_ids);
        let embeddings: usize = plan.zeros(rows * self.hidden_size);
        plan.gather_rows_f16(
            self.codec_embedding,
            ids,
            embeddings,
            rows as u32,
            self.hidden_size as u32,
        );
        Ok(embeddings)
    }

    /// Projects one normalised talker state and takes the best token. The
    /// state becomes a given buffer; the result names the one-element buffer
    /// of the token.
    pub fn semantic_argmax(&self, plan: &mut Plan, hidden_len: usize) -> (outcome: Result<
        usize,
        String,
    >)
        requires
            old(plan).wf(),
            self.fits(*old(plan)),
            self.hidden_size <= u32::MAX,
            self.codec_vocab_size <= u32::MAX,
        ensures
            final(plan).wf(),
            match outcome {
                Err(message) => {
                    &&& hidden_len != self.hidden_size
                    &&& message@ == "talker hidden has "@ + decimal(hidden_len as nat)
                        + " values, expected "@ + decimal(self.hidden_size as nat)
                    &&& *final(plan) == *old(plan)
                },
                Ok(output) => {
                    &&& hidden_len == self.hidden_size
                    &&& extends(*old(plan), *final(plan))
                    &&& sized(*final(plan), output, 1)
                    &&& final(plan).values()[output as int] == argmax_f16(
                        gemv_f16(
                            Term::Given(old(plan).steps().len()),
                            old(plan).values()[self.codec_head as int],
                            self.codec_vocab_size as u32,
                            self.hidden_size as u32,
                        ),
                        self.codec_vocab_size as u32,
                    )
                },
            },
    {
        if hidden_len != self.hidden_size {
            return Err(
                "talker hidden has ".to_owned().concat(&to_decimal(hidden_len as u64)).concat(
                    " values, expected ",
                ).concat(&to_decimal(self.hidden_size as u64)),
            );
        }
        let hidden: usize = plan.given(hidden_len);
        let logits: usize = plan.zeros(self.codec_vocab_size);
        let token: usize = plan.zeros(1);
        plan.gemv_f16(
            hidden,
            self.codec_head,
            logits,
            self.codec_vocab_size as u32,
            self.hidden_size as u32,
        );
        plan.argmax_f16(logits, token, self.codec_vocab_size as u32);
        Ok(token)
    }
}

impl TalkerFrontend {
    /// Loaded weights exist at their full size.
    pub proof fn law_loaded_weights_fit(self, plan: Plan, base: int, c: TalkerConfig)
        requires
            stores(plan, base, frontend_tensors(c)),
            self == (TalkerFrontend {
                text_embedding: base as usize,
                text_fc1_weight: (base + 1) as usize,
                text_fc1_bias: (base + 2) as usize,
                text_fc2_weight: (base + 3) as usize,
                text_fc2_bias: (base + 4) as usize,
                codec_embedding: (base + 5) as usize,
                codec_head: (base + 6) as usize,
                text_vocab_size: c.text_vocab_size,
                codec_vocab_size: c.vocab_size,
                text_hidden_size: c.text_hidden_size,
                hidden_size: c.hidden_size,
            }),
        ensures
            self.fits(plan),
    {
        let tensors = frontend_tensors(c);
        let text = c.text_hidden_size;
        let hidden = c.hidden_size;
        lemma_stored2(plan, base, tensors, 0, c.text_vocab_size, text);
        lemma_stored2(plan, base, tensors, 1, text, text);
        lemma_stored1(plan, base, tensors, 2, text);
        lemma_stored2(plan, base, tensors, 3, hidden, text);
        lemma_stored1(plan, base, tensors, 4, hidden);
        lemma_stored2(plan, base, tensors, 5, c.vocab_size, hidden);
        lemma_stored2(plan, base, tensors, 6, c.vocab_size, hidden);
    }
}

} // verus!
