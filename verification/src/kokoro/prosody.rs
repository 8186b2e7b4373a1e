//! Durations: how long every phoneme is spoken.
use vstd::prelude::*;
use vstd::string::*;
use crate::device::{EPS_1E5, Plan, Scalar, Term, extends, holds};
use crate::device::value::{append_row, repeat_rows, style_layer_norm};
use crate::kokoro::adain::AdaIn;
use crate::kokoro::albert::{
    KokoroAlbert, albert_fault, albert_tensors, encoded, lemma_encoded_at, supported, to_uploaded, uploaded,
};
use crate::kokoro::checkpoint::{fixed, fixed_complaint, full_name, to_full_name};
use crate::kokoro::config::{KokoroConfig, KokoroVoice, style_fault};
use crate::kokoro::lstm::{KokoroBiLstm, lemma_lstm_output_at, lstm_output, lstm_tensors};
use crate::layout::{sum_of, total};
use crate::number::{is_usable_factor, usable_factor};
use crate::text::{decimal, to_decimal};
use crate::weights::{Loader, Tensor, lemma_stored1, lemma_stored2, lemma_stores_split, stores};

verus! {

/// A recurrent layer and the style map of the normalisation after it.
#[derive(Clone, Copy, Debug, PartialEq, Eq, Structural)]
pub struct DurationLayer {
    pub lstm: KokoroBiLstm,
    pub norm: AdaIn,
}

/// The prosody model, as buffers.
#[derive(Clone, Copy, Debug, PartialEq, Eq, Structural)]
pub struct KokoroProsodyFrontend {
    pub first: DurationLayer,
    pub second: DurationLayer,
    pub third: DurationLayer,
    pub duration_weight: usize,
    pub duration_bias: usize,
    pub albert: KokoroAlbert,
    pub duration_lstm: KokoroBiLstm,
}

/// The tensors of the layer in `slot`, whose recurrent part has number `index`.
pub open spec fn layer_tensors(slot: nat, index: nat) -> Seq<Tensor> {
    let prefix = "module.text_encoder.lstms."@;
    let message = "invalid Kokoro duration AdaLayerNorm "@ + decimal(slot);
    let fc = prefix + decimal(index + 1) + ".fc"@;
    lstm_tensors("predictor"@, prefix + decimal(index), 640, 256) + seq![
        fixed(full_name("predictor"@, fc + ".weight"@), seq![1024, 128], message).before(1),
        fixed(full_name("predictor"@, fc + ".bias"@), seq![1024], message),
    ]
}

/// The tensors of the prosody model.
pub open spec fn prosody_tensors(config: KokoroConfig) -> Seq<Tensor> {
    layer_tensors(0, 0) + layer_tensors(1, 2) + layer_tensors(2, 4) + seq![
        fixed(
            full_name("predictor"@, "module.duration_proj.linear_layer.weight"@),
            seq![50, 512],
            "invalid Kokoro duration projection"@,
        ).before(1),
        fixed(
            full_name("predictor"@, "module.duration_proj.linear_layer.bias"@),
            seq![50],
            "invalid Kokoro duration projection"@,
        ),
    ] + albert_tensors(config) + lstm_tensors("predictor"@, "module.lstm"@, 640, 256)
}

impl DurationLayer {
    /// The layer whose first tensor is buffer `base`.
    pub open spec fn at(base: int) -> Self {
        DurationLayer { lstm: KokoroBiLstm::at(base, 640, 256), norm: AdaIn::at(base + 8) }
    }

    /// The weights exist at their full size.
    pub open spec fn fits(self, plan: Plan) -> bool {
        &&& self.lstm.fits(plan)
        &&& self.lstm.input_size == 640
        &&& self.lstm.hidden_size == 256
        &&& self.norm.fits(plan, 512)
    }

    /// Requires the tensors of a layer.
    fn load(loader: &mut Loader, slot: u64, index: u64) -> (layer: Self)
        requires
            old(loader).wf(),
            index < u64::MAX,
        ensures
            final(loader).wf(),
            layer == Self::at(old(loader).tensors().len() as int),
            final(loader).tensors() == old(loader).tensors() + layer_tensors(
                slot as nat,
                index as nat,
            ),
            final(loader).tensors().len() == old(loader).tensors().len() + 10,
    {
        let ghost before = loader.tensors();
        let prefix = "module.text_encoder.lstms.".to_owned();
        let lstm = KokoroBiLstm::load(
            loader,
            "predictor",
            prefix.clone().concat(&to_decimal(index)).as_str(),
            640,
            256,
        );
        let fc = prefix.clone().concat(&to_decimal(index + 1)).concat(".fc");
        let message = "invalid Kokoro duration AdaLayerNorm ".to_owned().concat(&to_decimal(slot));
        let weight: usize = loader.matrix(
            to_full_name("predictor", fc.clone().concat(".weight").as_str()),
            1024,
            128,
            fixed_complaint(message.as_str()).before(1),
        );
        let bias: usize = loader.vector(
            to_full_name("predictor", fc.clone().concat(".bias").as_str()),
            1024,
            fixed_complaint(message.as_str()),
        );
        assert(loader.tensors() =~= before + layer_tensors(slot as nat, index as nat));
        DurationLayer { lstm, norm: AdaIn { weight, bias } }
    }
}

/// Rows of 512 values with the style behind each.
pub open spec fn with_style(rows: Term, style: Term, frames: u32) -> Term {
    append_row(rows, style, frames, 512, 128)
}

/// The rows after a layer, from the rows before it.
pub open spec fn layer_rows(w: DurationLayer, plan: Plan, rows: Term, style: Term, frames: u32) -> Term {
    style_layer_norm(
        lstm_output(w.lstm, plan, with_style(rows, style, frames), frames as int),
        plan.values()[w.norm.weight as int],
        plan.values()[w.norm.bias as int],
        style,
        frames,
        512,
        128,
        Scalar::Single(EPS_1E5),
    )
}

/// Puts the style behind every row. The result names a fresh buffer.
fn run_with_style(plan: &mut Plan, rows: usize, style: usize, frames: u32) -> (out: usize)
    requires
        old(plan).wf(),
        holds(*old(plan), rows, frames * 512),
        holds(*old(plan), style, 128),
        frames * 1024 <= usize::MAX,
    ensures
        final(plan).wf(),
        extends(*old(plan), *final(plan)),
        out < final(plan).values().len(),
        final(plan).sizes()[out as int] == frames * 640,
        final(plan).values()[out as int] == with_style(
            old(plan).values()[rows as int],
            old(plan).values()[style as int],
            frames,
        ),
{
    let out: usize = plan.zeros(frames as usize * 640);
    plan.append_row(rows, style, out, frames, 512, 128);
    out
}

impl DurationLayer {
    /// Runs the layer. The result names the rows that come out.
    fn forward(&self, plan: &mut Plan, rows: usize, style: usize, frames: u32, Ghost(start): Ghost<
        Plan,
    >) -> (out: usize)
        requires
            old(plan).wf(),
            extends(start, *old(plan)),
            self.fits(start),
            frames > 0,
            frames * 1024 <= u32::MAX,
            frames * 1024 <= usize::MAX,
            holds(*old(plan), rows, frames * 512),
            holds(*old(plan), style, 128),
        ensures
            final(plan).wf(),
            extends(*old(plan), *final(plan)),
            out < final(plan).values().len(),
            final(plan).sizes()[out as int] == frames * 512,
            final(plan).values()[out as int] == layer_rows(
                *self,
                start,
                old(plan).values()[rows as int],
                old(plan).values()[style as int],
                frames,
            ),
    {
        let input: usize = run_with_style(plan, rows, style, frames);
        let ghost middle = *plan;
        match self.lstm.forward(plan, input, frames as usize) {
            Ok(out) => {
                proof {
                    lemma_lstm_output_at(
                        self.lstm,
                        start,
                        middle,
                        middle.values()[input as int],
                        frames as int,
                    );
                }
                plan.style_layer_norm(
                    out,
                    self.norm.weight,
                    self.norm.bias,
                    style,
                    frames,
                    512,
                    128,
                    Scalar::Single(EPS_1E5),
                );
                out
            },
            Err(_) => 0,
        }
    }
}

/// The buffers from which durations are read off.
#[derive(Clone, Copy, Debug, PartialEq, Eq, Structural)]
pub struct DurationRows {
    /// Rows of 640 values: the encoded phonemes and the style.
    pub input: usize,
    /// Rows of 512 values, to be projected on the durations.
    pub hidden: usize,
    /// The half of the style that the durations follow.
    pub style: usize,
}

/// What the recurrent layer over the durations reads.
pub open spec fn duration_input(w: KokoroProsodyFrontend, plan: Plan, ids: Seq<usize>, style: Term) -> Term {
    let frames = ids.len() as u32;
    let first = layer_rows(w.first, plan, encoded(w.albert, plan.values(), ids), style, frames);
    let second = layer_rows(w.second, plan, first, style, frames);
    with_style(layer_rows(w.third, plan, second, style, frames), style, frames)
}

/// Why durations cannot be predicted, if they cannot. The speed is a
/// single-precision number, by its bits.
pub open spec fn prosody_fault(
    w: KokoroProsodyFrontend,
    ids: Seq<usize>,
    voice: KokoroVoice,
    speed: u32,
) -> Option<Seq<char>> {
    if !usable_factor(speed) {
        Some("Kokoro speed must be positive"@)
    } else if ids.len() < 3 {
        Some("Kokoro input requires boundary and phoneme tokens"@)
    } else if style_fault(voice, ids.len() - 2) is Some {
        style_fault(voice, ids.len() - 2)
    } else if voice.width() != 256 {
        Some("Kokoro voice style must have 256 values"@)
    } else {
        albert_fault(w.albert, ids)
    }
}

/// What is known of an utterance before the pitch is predicted.
pub struct KokoroProsody {
    /// The buffer of rows of 640 values, one per acoustic frame.
    pub aligned: usize,
    pub acoustic_frames: usize,
    pub durations: Vec<usize>,
    /// The first half of the style, by its bits.
    pub decoder_style: Vec<u32>,
    /// The second half of the style, by its bits.
    pub predictor_style: Vec<u32>,
}

/// A copy of part of a slice.
fn part(data: &[u32], from: usize, to: usize) -> (out: Vec<u32>)
    requires
        from <= to <= data@.len(),
    ensures
        out@ == data@.subrange(from as int, to as int),
{
    let mut out: Vec<u32> = Vec::new();
    let n: usize = data.len();
    for i in from..to
        invariant
            n == data@.len(),
            from <= to <= n,
            out@ == data@.subrange(from as int, i as int),
    {
        out.push(data[i]);
        assert(data@.subrange(from as int, i + 1) =~= data@.subrange(from as int, i as int).push(
            data@[i as int],
        ));
    }
    out
}

/// The halves of a style: that of the decoder and that of the predictor.
pub fn split_style(style: &[u32]) -> (halves: (Vec<u32>, Vec<u32>))
    requires
        style@.len() == 256,
    ensures
        halves.0@ == style@.take(128),
        halves.1@ == style@.skip(128),
{
    let first = part(style, 0, 128);
    let second = part(style, 128, 256);
    assert(style@.take(128) =~= style@.subrange(0, 128));
    assert(style@.skip(128) =~= style@.subrange(128, 256));
    (first, second)
}

/// The halves of a style are all of it.
pub proof fn law_style_halves_make_the_style(style: Seq<u32>)
    requires
        style.len() == 256,
    ensures
        style.take(128) + style.skip(128) == style,
        style.take(128).len() == 128,
        style.skip(128).len() == 128,
{
    assert(style.take(128) + style.skip(128) =~= style);
}

impl KokoroProsodyFrontend {
    /// The model whose first tensor is buffer `base`.
    pub open spec fn at(base: int, config: KokoroConfig) -> Self {
        KokoroProsodyFrontend {
            first: DurationLayer::at(base),
            second: DurationLayer::at(base + 10),
            third: DurationLayer::at(base + 20),
            duration_weight: (base + 30) as usize,
            duration_bias: (base + 31) as usize,
            albert: KokoroAlbert::at(base + 32, config),
            duration_lstm: KokoroBiLstm::at(base + 57, 640, 256),
        }
    }

    /// The weights exist at their full size.
    pub open spec fn fits(self, plan: Plan) -> bool {
        &&& self.first.fits(plan)
        &&& self.second.fits(plan)
        &&& self.third.fits(plan)
        &&& self.albert.fits(plan)
        &&& self.duration_lstm.fits(plan)
        &&& self.duration_lstm.input_size == 640
        &&& self.duration_lstm.hidden_size == 256
    }

    /// Requires the tensors of the model.
    pub fn load(loader: &mut Loader, config: &KokoroConfig) -> (outcome: Result<Self, String>)
        requires
            old(loader).wf(),
            config.n_token * 128 <= usize::MAX,
            config.plbert.max_position_embeddings * 128 <= usize::MAX,
            config.hidden_dim * 768 <= usize::MAX,
        ensures
            final(loader).wf(),
            outcome is Ok <==> supported(*config),
            match outcome {
                Err(message) => message@ == "unsupported Kokoro ALBERT geometry"@,
                Ok(model) => {
                    &&& model == Self::at(old(loader).tensors().len() as int, *config)
                    &&& final(loader).tensors() == old(loader).tensors() + prosody_tensors(*config)
                    &&& final(loader).tensors().len() == old(loader).tensors().len() + 65
                },
            },
    {
        let ghost before = loader.tensors();
        let first = DurationLayer::load(loader, 0, 0);
        let second = DurationLayer::load(loader, 1, 2);
        let third = DurationLayer::load(loader, 2, 4);
        let duration_weight: usize = loader.matrix(
            to_full_name("predictor", "module.duration_proj.linear_layer.weight"),
            50,
            512,
            fixed_complaint("invalid Kokoro duration projection").before(1),
        );
        let duration_bias: usize = loader.vector(
            to_full_name("predictor", "module.duration_proj.linear_layer.bias"),
            50,
            fixed_complaint("invalid Kokoro duration projection"),
        );
        match KokoroAlbert::load(loader, config) {
            Err(message) => Err(message),
            Ok(albert) => {
                let duration_lstm = KokoroBiLstm::load(
                    loader,
                    "predictor",
                    "module.lstm",
                    640,
                    256,
                );
                assert(loader.tensors() =~= before + prosody_tensors(*config));
                Ok(
                    KokoroProsodyFrontend {
                        first,
                        second,
                        third,
                        duration_weight,
                        duration_bias,
                        albert,
                        duration_lstm,
                    },
                )
            },
        }
    }

    /// Encodes tokens in the style of a voice, up to the rows from which
    /// durations are read off. The second half of the style becomes a given
    /// buffer.
    pub fn predict(
        &self,
        plan: &mut Plan,
        ids: &[usize],
        voice: &KokoroVoice,
        speed: u32,
    ) -> (outcome: Result<DurationRows, String>)
        requires
            old(plan).wf(),
            self.fits(*old(plan)),
            voice.wf(),
            self.albert.vocabulary <= i32::MAX,
            ids@.len() * 2048 <= u32::MAX,
            ids@.len() * 2048 <= usize::MAX,
        ensures
            final(plan).wf(),
            extends(*old(plan), *final(plan)),
            outcome is Ok <==> prosody_fault(*self, ids@, *voice, speed) is None,
            match outcome {
                Err(message) => prosody_fault(*self, ids@, *voice, speed) == Some(message@),
                Ok(rows) => {
                    let style = Term::Given(old(plan).steps().len());
                    let frames = ids@.len() as u32;
                    let input = duration_input(*self, *old(plan), ids@, style);
                    &&& extends(*old(plan), *final(plan))
                    &&& rows.style == old(plan).values().len()
                    &&& rows.input < final(plan).values().len()
                    &&& rows.hidden < final(plan).values().len()
                    &&& final(plan).sizes()[rows.style as int] == 128
                    &&& final(plan).sizes()[rows.input as int] == frames * 640
                    &&& final(plan).sizes()[rows.hidden as int] == frames * 512
                    &&& final(plan).values()[rows.style as int] == style
                    &&& final(plan).values()[rows.input as int] == input
                    &&& final(plan).values()[rows.hidden as int] == lstm_output(
                        self.duration_lstm,
                        *old(plan),
                        input,
                        frames as int,
                    )
                },
            },
    {
        if !is_usable_factor(speed) {
            return Err("Kokoro speed must be positive".to_owned());
        }
        if ids.len() < 3 {
            return Err("Kokoro input requires boundary and phoneme tokens".to_owned());
        }
        match voice.style_for_phoneme_count(ids.len() - 2) {
            Err(message) => {
                return Err(message);
            },
            Ok(style) => {
                if style.len() != 256 {
                    return Err("Kokoro voice style must have 256 values".to_owned());
                }
            },
        }
        let ghost start = *plan;
        let frames: u32 = ids.len() as u32;
        let style: usize = plan.given(128);
        let ghost styled = *plan;
        let hidden: usize = match self.albert.encode(plan, ids) {
            Err(message) => {
                return Err(message);
            },
            Ok(hidden) => hidden,
        };
        proof {
            lemma_encoded_at(self.albert, start, styled, ids@);
        }
        let first: usize = self.first.forward(plan, hidden, style, frames, Ghost(start));
        let second: usize = self.second.forward(plan, first, style, frames, Ghost(start));
        let third: usize = self.third.forward(plan, second, style, frames, Ghost(start));
        let input: usize = run_with_style(plan, third, style, frames);
        let ghost middle = *plan;
        match self.duration_lstm.forward(plan, input, ids.len()) {
            Err(message) => Err(message),
            Ok(out) => {
                proof {
                    lemma_lstm_output_at(
                        self.duration_lstm,
                        start,
                        middle,
                        middle.values()[input as int],
                        frames as int,
                    );
                }
                Ok(DurationRows { input, hidden: out, style })
            },
        }
    }
}

/// Stretches the rows of the phonemes to their durations, which have been
/// read off, and puts the utterance together.
pub fn align(plan: &mut Plan, rows: DurationRows, durations: Vec<usize>, style: &[u32]) -> (prosody:
    KokoroProsody)
    requires
        old(plan).wf(),
        style@.len() == 256,
        holds(*old(plan), rows.input, durations@.len() as int * 640),
        durations@.len() <= u32::MAX,
        total(durations@) <= i32::MAX,
        total(durations@) * 640 <= usize::MAX,
        forall|i: int| 0 <= i < durations@.len() ==> #[trigger] durations@[i] <= i32::MAX,
    ensures
        final(plan).wf(),
        extends(*old(plan), *final(plan)),
        prosody.durations == durations,
        prosody.acoustic_frames == total(durations@),
        prosody.decoder_style@ == style@.take(128),
        prosody.predictor_style@ == style@.skip(128),
        prosody.aligned < final(plan).values().len(),
        final(plan).sizes()[prosody.aligned as int] == total(durations@) * 640,
        final(plan).values()[prosody.aligned as int] == repeat_rows(
            old(plan).values()[rows.input as int],
            Term::Integers(uploaded(durations@)),
            durations@.len() as u32,
            640,
            total(durations@) as u32,
        ),
{
    let (decoder_style, predictor_style) = split_style(style);
    let counts: usize = plan.upload(to_uploaded(durations.as_slice()).as_slice());
    let acoustic_frames: usize = sum_of(durations.as_slice());
    let aligned: usize = plan.zeros(acoustic_frames * 640);
    plan.repeat_rows(
        rows.input,
        counts,
        aligned,
        durations.len() as u32,
        640,
        acoustic_frames as u32,
    );
    KokoroProsody { aligned, acoustic_frames, durations, decoder_style, predictor_style }
}

impl DurationLayer {
    /// Loaded weights exist at their full size.
    proof fn lemma_loaded(plan: Plan, base: int, slot: nat, index: nat)
        requires
            stores(plan, base, layer_tensors(slot, index)),
        ensures
            Self::at(base).fits(plan),
    {
        let prefix = "module.text_encoder.lstms."@;
        let message = "invalid Kokoro duration AdaLayerNorm "@ + decimal(slot);
        let fc = prefix + decimal(index + 1) + ".fc"@;
        let a = lstm_tensors("predictor"@, prefix + decimal(index), 640, 256);
        let b = seq![
            fixed(full_name("predictor"@, fc + ".weight"@), seq![1024, 128], message).before(1),
            fixed(full_name("predictor"@, fc + ".bias"@), seq![1024], message),
        ];
        lemma_stores_split(plan, base, a, b);
        KokoroBiLstm::law_loaded_weights_fit(
            plan,
            base,
            "predictor"@,
            prefix + decimal(index),
            640,
            256,
        );
        lemma_stored2(plan, base + 8, b, 0, 1024, 128);
        lemma_stored1(plan, base + 8, b, 1, 1024);
    }
}

impl KokoroProsodyFrontend {
    /// Loaded weights exist at their full size.
    pub proof fn law_loaded_weights_fit(plan: Plan, base: int, config: KokoroConfig)
        requires
            stores(plan, base, prosody_tensors(config)),
            config.hidden_dim >= 512,
        ensures
            Self::at(base, config).fits(plan),
    {
        let t0 = layer_tensors(0, 0);
        let p1 = layer_tensors(1, 2);
        let t1 = t0 + p1;
        let p2 = layer_tensors(2, 4);
        let t2 = t1 + p2;
        let p3 = seq![
            fixed(
                full_name("predictor"@, "module.duration_proj.linear_layer.weight"@),
                seq![50, 512],
                "invalid Kokoro duration projection"@,
            ).before(1),
            fixed(
                full_name("predictor"@, "module.duration_proj.linear_layer.bias"@),
                seq![50],
                "invalid Kokoro duration projection"@,
            ),
        ];
        let t3 = t2 + p3;
        let p4 = albert_tensors(config);
        let t4 = t3 + p4;
        let p5 = lstm_tensors("predictor"@, "module.lstm"@, 640, 256);
        let t5 = t4 + p5;
        lemma_stores_split(plan, base, t4, p5);
        lemma_stores_split(plan, base, t3, p4);
        lemma_stores_split(plan, base, t2, p3);
        lemma_stores_split(plan, base, t1, p2);
        lemma_stores_split(plan, base, t0, p1);
        DurationLayer::lemma_loaded(plan, base, 0, 0);
        DurationLayer::lemma_loaded(plan, base + 10, 1, 2);
        DurationLayer::lemma_loaded(plan, base + 20, 2, 4);
        KokoroAlbert::law_loaded_weights_fit(plan, base + 32, config);
        KokoroBiLstm::law_loaded_weights_fit(plan, base + 57, "predictor"@, "module.lstm"@, 640, 256);
    }
}

} // verus!
