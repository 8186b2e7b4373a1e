//! The small parts around the stacks: embeddings, connector and end
//! classifier.
use vstd::prelude::*;
use vstd::string::*;
use crate::device::{EPS_1E6, Plan, Scalar, Term, extends, holds};
use crate::device::compound::only_changes;
use crate::device::value::{
    add_bias_bf16_inplace, add_row_f32, copy_bf16_to_f32, copy_from, gather_rows_bf16, gemv_bf16,
    relu_bf16, rms_norm_f32in_bf16,
};
use crate::number::{finite, is_finite};
use crate::text::{decimal, to_decimal};
use crate::vibevoice::config::VibeVoiceConfig;
use crate::weights::{
    Absence, Complaint, Fault, Loader, Role, Tensor, lemma_stored1, lemma_stored2, stores,
};

verus! {

/// The weights around the stacks, as buffers.
#[derive(Clone, Copy, Debug, PartialEq, Eq, Structural)]
pub struct VibeVoiceGenerationWeights {
    pub embeddings: usize,
    pub input_types: usize,
    pub fc1: usize,
    pub fc1_bias: usize,
    pub norm: usize,
    pub fc2: usize,
    pub fc2_bias: usize,
    pub eos_fc1: usize,
    pub eos_fc1_bias: usize,
    pub eos_fc2: usize,
    pub eos_fc2_bias: usize,
    pub scaling: usize,
    pub bias: usize,
    /// How wide the hidden state is.
    pub hidden: usize,
    /// How many tokens there are.
    pub vocab: usize,
    /// How many values an acoustic latent has.
    pub latent: usize,
}

/// A tensor whose complaint shows the shape found.
pub open spec fn found_tensor(name: Seq<char>, shape: Seq<usize>) -> Tensor {
    Tensor { name, shape, fault: Fault::found(name + " has shape "@).gone(Absence::Unloaded), role: Role::Plain }
}

/// A single number.
pub open spec fn scalar_tensor(name: Seq<char>) -> Tensor {
    Tensor {
        name,
        shape: seq![],
        fault: Fault::fixed(name + " is not a scalar"@),
        role: Role::Plain,
    }
}

/// The tensors around the stacks.
pub open spec fn generation_tensors(hidden: usize, vocab: usize, latent: usize) -> Seq<Tensor> {
    seq![
        found_tensor("model.language_model.embed_tokens.weight"@, seq![vocab, hidden]),
        found_tensor("model.tts_input_types.weight"@, seq![2, hidden]),
        found_tensor("model.acoustic_connector.fc1.weight"@, seq![hidden, latent]),
        found_tensor("model.acoustic_connector.fc1.bias"@, seq![hidden]),
        found_tensor("model.acoustic_connector.norm.weight"@, seq![hidden]),
        found_tensor("model.acoustic_connector.fc2.weight"@, seq![hidden, hidden]),
        found_tensor("model.acoustic_connector.fc2.bias"@, seq![hidden]),
        found_tensor("tts_eos_classifier.fc1.weight"@, seq![hidden, hidden]),
        found_tensor("tts_eos_classifier.fc1.bias"@, seq![hidden]),
        found_tensor("tts_eos_classifier.fc2.weight"@, seq![1, hidden]),
        found_tensor("tts_eos_classifier.fc2.bias"@, seq![1]),
        scalar_tensor("model.speech_scaling_factor"@),
        scalar_tensor("model.speech_bias_factor"@),
    ]
}

fn found_vector(loader: &mut Loader, name: &str, a: usize) -> (buffer: usize)
    requires
        old(loader).wf(),
    ensures
        final(loader).wf(),
        buffer == old(loader).tensors().len(),
        final(loader).tensors() == old(loader).tensors().push(found_tensor(name@, seq![a])),
{
    loader.vector(
        name.to_owned(),
        a,
        Complaint::found(name.to_owned().concat(" has shape ")).gone(Absence::Unloaded),
    )
}

fn found_matrix(loader: &mut Loader, name: &str, a: usize, b: usize) -> (buffer: usize)
    requires
        old(loader).wf(),
        a * b <= usize::MAX,
    ensures
        final(loader).wf(),
        buffer == old(loader).tensors().len(),
        final(loader).tensors() == old(loader).tensors().push(found_tensor(name@, seq![a, b])),
{
    loader.matrix(
        name.to_owned(),
        a,
        b,
        Complaint::found(name.to_owned().concat(" has shape ")).gone(Absence::Unloaded),
    )
}

fn found_scalar(loader: &mut Loader, name: &str) -> (buffer: usize)
    requires
        old(loader).wf(),
    ensures
        final(loader).wf(),
        buffer == old(loader).tensors().len(),
        final(loader).tensors() == old(loader).tensors().push(scalar_tensor(name@)),
{
    loader.scalar(
        name.to_owned(),
        Complaint::fixed(name.to_owned().concat(" is not a scalar")),
    )
}

/// Whether the scaling of the latents can be undone: both numbers are finite,
/// and the factor is larger in size than the spacing of numbers at one.
pub open spec fn usable_scaling(scaling: u32, bias: u32) -> bool {
    finite(scaling) && scaling as int % 0x8000_0000 > 0x3400_0000 && finite(bias)
}

/// Checks the two numbers that scale the latents, by their bits.
pub fn check_scaling(scaling: u32, bias: u32) -> (outcome: Result<(), String>)
    ensures
        match outcome {
            Ok(_) => usable_scaling(scaling, bias),
            Err(message) => !usable_scaling(scaling, bias) && message@
                == "invalid VibeVoice speech scaling"@,
        },
{
    if is_finite(scaling) && scaling % 0x8000_0000 > 0x3400_0000 && is_finite(bias) {
        Ok(())
    } else {
        Err("invalid VibeVoice speech scaling".to_owned())
    }
}

impl VibeVoiceGenerationWeights {
    /// The weights whose first tensor is buffer `base`.
    pub open spec fn at(base: int, hidden: usize, vocab: usize, latent: usize) -> Self {
        VibeVoiceGenerationWeights {
            embeddings: (base + 0) as usize,
            input_types: (base + 1) as usize,
            fc1: (base + 2) as usize,
            fc1_bias: (base + 3) as usize,
            norm: (base + 4) as usize,
            fc2: (base + 5) as usize,
            fc2_bias: (base + 6) as usize,
            eos_fc1: (base + 7) as usize,
            eos_fc1_bias: (base + 8) as usize,
            eos_fc2: (base + 9) as usize,
            eos_fc2_bias: (base + 10) as usize,
            scaling: (base + 11) as usize,
            bias: (base + 12) as usize,
            hidden,
            vocab,
            latent,
        }
    }

    /// The weights exist at their full size.
    pub open spec fn fits(self, plan: Plan) -> bool {
        &&& holds(plan, self.embeddings, self.vocab * self.hidden)
        &&& holds(plan, self.input_types, 2 * self.hidden)
        &&& holds(plan, self.fc1, self.hidden * self.latent)
        &&& holds(plan, self.fc1_bias, self.hidden as int)
        &&& holds(plan, self.norm, self.hidden as int)
        &&& holds(plan, self.fc2, self.hidden * self.hidden)
        &&& holds(plan, self.fc2_bias, self.hidden as int)
        &&& holds(plan, self.eos_fc1, self.hidden * self.hidden)
        &&& holds(plan, self.eos_fc1_bias, self.hidden as int)
        &&& holds(plan, self.eos_fc2, 1 * self.hidden)
        &&& holds(plan, self.eos_fc2_bias, 1)
        &&& self.hidden > 0
        &&& 2 * self.hidden <= u32::MAX
        &&& self.latent <= u32::MAX
    }

    /// Requires the tensors around the stacks.
    pub fn load(loader: &mut Loader, config: &VibeVoiceConfig) -> (weights: Self)
        requires
            old(loader).wf(),
            config.decoder_config.vocab_size * config.decoder_config.hidden_size <= usize::MAX,
            config.decoder_config.hidden_size * config.decoder_config.hidden_size <= usize::MAX,
            config.decoder_config.hidden_size * config.acoustic_vae_dim <= usize::MAX,
            2 * config.decoder_config.hidden_size <= usize::MAX,
        ensures
            final(loader).wf(),
            weights == Self::at(
                old(loader).tensors().len() as int,
                config.decoder_config.hidden_size,
                config.decoder_config.vocab_size,
                config.acoustic_vae_dim,
            ),
            final(loader).tensors() == old(loader).tensors() + generation_tensors(
                config.decoder_config.hidden_size,
                config.decoder_config.vocab_size,
                config.acoustic_vae_dim,
            ),
    {
        let ghost before = loader.tensors();
        let hidden: usize = config.decoder_config.hidden_size;
        let vocab: usize = config.decoder_config.vocab_size;
        let latent: usize = config.acoustic_vae_dim;
        let embeddings: usize = found_matrix(loader, "model.language_model.embed_tokens.weight", vocab, hidden);
        let input_types: usize = found_matrix(loader, "model.tts_input_types.weight", 2, hidden);
        let fc1: usize = found_matrix(loader, "model.acoustic_connector.fc1.weight", hidden, latent);
        let fc1_bias: usize = found_vector(loader, "model.acoustic_connector.fc1.bias", hidden);
        let norm: usize = found_vector(loader, "model.acoustic_connector.norm.weight", hidden);
        let fc2: usize = found_matrix(loader, "model.acoustic_connector.fc2.weight", hidden, hidden);
        let fc2_bias: usize = found_vector(loader, "model.acoustic_connector.fc2.bias", hidden);
        let eos_fc1: usize = found_matrix(loader, "tts_eos_classifier.fc1.weight", hidden, hidden);
        let eos_fc1_bias: usize = found_vector(loader, "tts_eos_classifier.fc1.bias", hidden);
        let eos_fc2: usize = found_matrix(loader, "tts_eos_classifier.fc2.weight", 1, hidden);
        let eos_fc2_bias: usize = found_vector(loader, "tts_eos_classifier.fc2.bias", 1);
        let scaling: usize = found_scalar(loader, "model.speech_scaling_factor");
        let bias: usize = found_scalar(loader, "model.speech_bias_factor");
        assert(loader.tensors() =~= before + generation_tensors(hidden, vocab, latent));
        VibeVoiceGenerationWeights {
            embeddings,
            input_types,
            fc1,
            fc1_bias,
            norm,
            fc2,
            fc2_bias,
            eos_fc1,
            eos_fc1_bias,
            eos_fc2,
            eos_fc2_bias,
            scaling,
            bias,
            hidden,
            vocab,
            latent,
        }
    }
}

/// The first token from `i` on that is out of range.
pub open spec fn stray_token(ids: Seq<u32>, vocab: usize, i: int) -> Option<u32>
    decreases ids.len() - i,
{
    if i >= ids.len() {
        None
    } else if ids[i] >= vocab {
        Some(ids[i])
    } else {
        stray_token(ids, vocab, i + 1)
    }
}

/// Why tokens cannot be embedded, if they cannot.
pub open spec fn embed_fault(ids: Seq<u32>, vocab: usize) -> Option<Seq<char>> {
    if ids.len() == 0 {
        Some("VibeVoice text token window is empty"@)
    } else {
        match stray_token(ids, vocab, 0) {
            Some(id) => Some(
                "VibeVoice token "@ + decimal(id as nat) + " is out of range"@,
            ),
            None => None,
        }
    }
}

/// Token numbers as they are uploaded.
pub open spec fn signed_ids(ids: Seq<u32>) -> Seq<i32> {
    Seq::new(ids.len(), |i: int| ids[i] as i32)
}

/// Checks tokens and turns them into what is uploaded.
fn check_ids(ids: &[u32], vocab: usize) -> (outcome: Result<Vec<i32>, u32>)
    requires
        vocab <= i32::MAX,
    ensures
        match outcome {
            Ok(list) => stray_token(ids@, vocab, 0) is None && list@ == signed_ids(ids@),
            Err(id) => stray_token(ids@, vocab, 0) == Some(id),
        },
{
    let mut list: Vec<i32> = Vec::new();
    for i in 0..ids.len()
        invariant
            vocab <= i32::MAX,
            stray_token(ids@, vocab, i as int) == stray_token(ids@, vocab, 0),
            list@.len() == i,
            forall|j: int| 0 <= j < i ==> #[trigger] list@[j] == ids@[j] as i32,
    {
        if ids[i] as u64 >= vocab as u64 {
            return Err(ids[i]);
        }
        list.push(ids[i] as i32);
    }
    assert(list@ =~= signed_ids(ids@));
    Ok(list)
}

/// The rows of tokens, widened.
pub open spec fn embedded(w: VibeVoiceGenerationWeights, v: Seq<Term>, ids: Seq<u32>) -> Term {
    let n = ids.len() as u32;
    copy_bf16_to_f32(
        gather_rows_bf16(
            v[w.embeddings as int],
            Term::Integers(signed_ids(ids)),
            n,
            w.hidden as u32,
        ),
        (n * w.hidden) as u32,
    )
}

/// The row that marks text, or speech.
pub open spec fn type_row(w: VibeVoiceGenerationWeights, v: Seq<Term>, speech: bool) -> Term {
    copy_bf16_to_f32(
        copy_from(
            v[w.input_types as int],
            w.hidden,
            if speech {
                w.hidden
            } else {
                0
            },
        ),
        w.hidden as u32,
    )
}

/// A linear map of one row.
pub open spec fn row_map(x: Term, weight: Term, bias: Term, n: u32, k: u32) -> Term {
    add_bias_bf16_inplace(gemv_bf16(x, weight, n, k), bias, 1, n)
}

/// Runs a linear map of one row. The result names a fresh buffer.
fn run_row_map(plan: &mut Plan, x: usize, weight: usize, bias: usize, n: u32, k: u32) -> (out:
    usize)
    requires
        old(plan).wf(),
        holds(*old(plan), x, k as int),
        holds(*old(plan), weight, n * k),
        holds(*old(plan), bias, n as int),
    ensures
        final(plan).wf(),
        out == old(plan).values().len(),
        final(plan).sizes() == old(plan).sizes().push(n as usize),
        final(plan).values() == old(plan).values().push(
            row_map(
                old(plan).values()[x as int],
                old(plan).values()[weight as int],
                old(plan).values()[bias as int],
                n,
                k,
            ),
        ),
{
    let ghost before = plan.values();
    let out: usize = plan.zeros(n as usize);
    plan.gemv_bf16(x, weight, out, n, k);
    plan.add_bias_bf16_inplace(out, bias, 1, n);
    assert(plan.values() =~= before.push(
        row_map(before[x as int], before[weight as int], before[bias as int], n, k),
    ));
    out
}

/// A latent as a row of the hidden state.
pub open spec fn connected(w: VibeVoiceGenerationWeights, v: Seq<Term>, latent: Term) -> Term {
    let h = w.hidden as u32;
    let first = row_map(latent, v[w.fc1 as int], v[w.fc1_bias as int], h, w.latent as u32);
    let normed = rms_norm_f32in_bf16(
        copy_bf16_to_f32(first, h),
        v[w.norm as int],
        1,
        h,
        Scalar::Single(EPS_1E6),
    );
    row_map(normed, v[w.fc2 as int], v[w.fc2_bias as int], h, h)
}

/// How likely the end is, before it is turned into a probability.
pub open spec fn end_logit(w: VibeVoiceGenerationWeights, v: Seq<Term>, hidden: Term) -> Term {
    let h = w.hidden as u32;
    let first = row_map(hidden, v[w.eos_fc1 as int], v[w.eos_fc1_bias as int], h, h);
    row_map(relu_bf16(first, h), v[w.eos_fc2 as int], v[w.eos_fc2_bias as int], 1, h)
}

impl VibeVoiceGenerationWeights {
    /// Embeds tokens. The result names rows of single-precision numbers.
    pub fn embed_text(&self, plan: &mut Plan, ids: &[u32]) -> (outcome: Result<usize, String>)
        requires
            old(plan).wf(),
            self.fits(*old(plan)),
            self.vocab <= i32::MAX,
            ids@.len() * self.hidden <= u32::MAX,
            ids@.len() * self.hidden <= usize::MAX,
            ids@.len() <= u32::MAX,
        ensures
            final(plan).wf(),
            match outcome {
                Err(message) => embed_fault(ids@, self.vocab) == Some(message@) && *final(plan)
                    == *old(plan),
                Ok(rows) => {
                    &&& embed_fault(ids@, self.vocab) is None
                    &&& extends(*old(plan), *final(plan))
                    &&& rows < final(plan).values().len()
                    &&& final(plan).sizes()[rows as int] == ids@.len() * self.hidden
                    &&& final(plan).values()[rows as int] == embedded(
                        *self,
                        old(plan).values(),
                        ids@,
                    )
                },
            },
    {
        if ids.len() == 0 {
            return Err("VibeVoice text token window is empty".to_owned());
        }
        let list = match check_ids(ids, self.vocab) {
            Ok(list) => list,
            Err(id) => {
                return Err(
                    "VibeVoice token ".to_owned().concat(&to_decimal(id as u64)).concat(
                        " is out of range",
                    ),
                );
            },
        };
        let n: usize = ids.len() * self.hidden;
        let numbers: usize = plan.upload(list.as_slice());
        let rows: usize = plan.zeros(n);
        plan.gather_rows_bf16(
            self.embeddings,
            numbers,
            rows,
            ids.len() as u32,
            self.hidden as u32,
        );
        let wide: usize = plan.zeros(n);
        plan.copy_bf16_to_f32(rows, wide, n as u32);
        Ok(wide)
    }

    /// Adds the row that marks text to every row.
    pub fn add_text_type(&self, plan: &mut Plan, values: usize) -> (outcome: Result<(), String>)
        requires
            old(plan).wf(),
            self.fits(*old(plan)),
            values < old(plan).values().len(),
            old(plan).sizes()[values as int] <= u32::MAX,
        ensures
            final(plan).wf(),
            typed(*self, *old(plan), *final(plan), values, false, outcome),
    {
        self.add_type(plan, values, false)
    }

    /// Adds the row that marks speech to every row.
    pub fn add_speech_type(&self, plan: &mut Plan, values: usize) -> (outcome: Result<(), String>)
        requires
            old(plan).wf(),
            self.fits(*old(plan)),
            values < old(plan).values().len(),
            old(plan).sizes()[values as int] <= u32::MAX,
        ensures
            final(plan).wf(),
            typed(*self, *old(plan), *final(plan), values, true, outcome),
    {
        self.add_type(plan, values, true)
    }

    fn add_type(&self, plan: &mut Plan, values: usize, speech: bool) -> (outcome: Result<
        (),
        String,
    >)
        requires
            old(plan).wf(),
            self.fits(*old(plan)),
            values < old(plan).values().len(),
            old(plan).sizes()[values as int] <= u32::MAX,
        ensures
            final(plan).wf(),
            typed(*self, *old(plan), *final(plan), values, speech, outcome),
    {
        let n: usize = plan.size(values);
        if n % self.hidden != 0 {
            return Err("VibeVoice typed hidden-state size mismatch".to_owned());
        }
        let rows: usize = n / self.hidden;
        proof {
            vstd::arithmetic::div_mod::lemma_fundamental_div_mod(n as int, self.hidden as int);
            assert(rows * self.hidden == self.hidden * rows) by (nonlinear_arith);
            assert(rows <= n) by (nonlinear_arith)
                requires
                    n == self.hidden * rows,
                    self.hidden >= 1,
                    rows >= 0,
            ;
        }
        let narrow: usize = plan.zeros(self.hidden);
        let offset: usize = if speech {
            self.hidden
        } else {
            0
        };
        plan.copy_from(self.input_types, narrow, self.hidden, offset);
        let row: usize = plan.zeros(self.hidden);
        plan.copy_bf16_to_f32(narrow, row, self.hidden as u32);
        plan.add_row_f32(values, row, rows as u32, self.hidden as u32);
        Ok(())
    }

    /// Checks the size of a latent.
    pub fn check_latent(&self, len: usize) -> (outcome: Result<(), String>)
        ensures
            match outcome {
                Ok(_) => len == self.latent,
                Err(message) => len != self.latent && message@ == "VibeVoice latent size mismatch"@,
            },
    {
        if len == self.latent {
            Ok(())
        } else {
            Err("VibeVoice latent size mismatch".to_owned())
        }
    }

    /// Turns a latent into a row of the hidden state.
    pub fn connect_latent(&self, plan: &mut Plan, latent: usize) -> (outcome: Result<usize, String>)
        requires
            old(plan).wf(),
            self.fits(*old(plan)),
            latent < old(plan).values().len(),
        ensures
            final(plan).wf(),
            outcome is Ok <==> old(plan).sizes()[latent as int] == self.latent,
            match outcome {
                Err(message) => message@ == "VibeVoice latent size mismatch"@ && *final(plan)
                    == *old(plan),
                Ok(row) => {
                    &&& extends(*old(plan), *final(plan))
                    &&& row < final(plan).values().len()
                    &&& final(plan).sizes()[row as int] == self.hidden
                    &&& final(plan).values()[row as int] == connected(
                        *self,
                        old(plan).values(),
                        old(plan).values()[latent as int],
                    )
                },
            },
    {
        match self.check_latent(plan.size(latent)) {
            Err(message) => {
                return Err(message);
            },
            Ok(_) => {},
        }
        let h: u32 = self.hidden as u32;
        let first: usize = run_row_map(
            plan,
            latent,
            self.fc1,
            self.fc1_bias,
            h,
            self.latent as u32,
        );
        let wide: usize = plan.zeros(self.hidden);
        plan.copy_bf16_to_f32(first, wide, h);
        let normed: usize = plan.zeros(self.hidden);
        plan.rms_norm_f32in_bf16(wide, self.norm, normed, 1, h, Scalar::Single(EPS_1E6));
        Ok(run_row_map(plan, normed, self.fc2, self.fc2_bias, h, h))
    }

    /// Asks how likely the end is after a row of the hidden state. The result
    /// names a single number, from which the probability is made.
    pub fn eos_probability(&self, plan: &mut Plan, hidden: usize) -> (outcome: Result<usize, String>)
        requires
            old(plan).wf(),
            self.fits(*old(plan)),
            hidden < old(plan).values().len(),
        ensures
            final(plan).wf(),
            outcome is Ok <==> old(plan).sizes()[hidden as int] == self.hidden,
            match outcome {
                Err(message) => message@ == "VibeVoice EOS hidden size mismatch"@ && *final(plan)
                    == *old(plan),
                Ok(logit) => {
                    &&& extends(*old(plan), *final(plan))
                    &&& logit < final(plan).values().len()
                    &&& final(plan).sizes()[logit as int] == 1
                    &&& final(plan).values()[logit as int] == end_logit(
                        *self,
                        old(plan).values(),
                        old(plan).values()[hidden as int],
                    )
                },
            },
    {
        if plan.size(hidden) != self.hidden {
            return Err("VibeVoice EOS hidden size mismatch".to_owned());
        }
        let h: u32 = self.hidden as u32;
        let first: usize = run_row_map(plan, hidden, self.eos_fc1, self.eos_fc1_bias, h, h);
        let active: usize = plan.zeros(self.hidden);
        plan.relu_bf16(first, active, h);
        Ok(run_row_map(plan, active, self.eos_fc2, self.eos_fc2_bias, 1, h))
    }
}

/// What adding a type row does: the rows must be whole, and then every one has
/// the row added.
pub open spec fn typed(
    w: VibeVoiceGenerationWeights,
    before: Plan,
    after: Plan,
    values: usize,
    speech: bool,
    outcome: Result<(), String>,
) -> bool {
    let n = before.sizes()[values as int];
    match outcome {
        Err(message) => n % w.hidden != 0 && message@
            == "VibeVoice typed hidden-state size mismatch"@ && after == before,
        Ok(_) => {
            &&& n % w.hidden == 0
            &&& only_changes(before, after, values)
            &&& after.values()[values as int] == add_row_f32(
                before.values()[values as int],
                type_row(w, before.values(), speech),
                (n / w.hidden) as u32,
                w.hidden as u32,
            )
        },
    }
}

impl VibeVoiceGenerationWeights {
    /// Loaded weights exist at their full size.
    pub proof fn law_loaded_weights_fit(
        plan: Plan,
        base: int,
        hidden: usize,
        vocab: usize,
        latent: usize,
    )
        requires
            hidden > 0,
            2 * hidden <= u32::MAX,
            latent <= u32::MAX,
            stores(plan, base, generation_tensors(hidden, vocab, latent)),
        ensures
            Self::at(base, hidden, vocab, latent).fits(plan),
    {
        let tensors = generation_tensors(hidden, vocab, latent);
        lemma_stored2(plan, base, tensors, 0, vocab, hidden);
        lemma_stored2(plan, base, tensors, 1, 2, hidden);
        lemma_stored2(plan, base, tensors, 2, hidden, latent);
        lemma_stored1(plan, base, tensors, 3, hidden);
        lemma_stored1(plan, base, tensors, 4, hidden);
        lemma_stored2(plan, base, tensors, 5, hidden, hidden);
        lemma_stored1(plan, base, tensors, 6, hidden);
        lemma_stored2(plan, base, tensors, 7, hidden, hidden);
        lemma_stored1(plan, base, tensors, 8, hidden);
        lemma_stored2(plan, base, tensors, 9, 1, hidden);
        lemma_stored1(plan, base, tensors, 10, 1);
    }
}

} // verus!
