//! The text encoder: convolutions and a recurrent layer over the tokens.
use vstd::prelude::*;
use vstd::string::*;
use crate::device::{EPS_1E5, Plan, Scalar, Term, extends, holds};
use crate::device::compound::{
    ConvShape, conv1d, run_conv1d, run_leaky, run_transposed, run_widened_norm, widened_norm,
};
use crate::device::value::{gather_rows_f16, leaky_relu_f16, repeat_rows, transpose_f16};
use crate::kokoro::albert::{all_below, to_uploaded, uploaded};
use crate::kokoro::checkpoint::{
    Conv, conv_tensors, fixed, fixed_complaint, full_name, kokoro_fixed, to_full_name,
};
use crate::kokoro::lstm::{KokoroBiLstm, lemma_lstm_output_at, lstm_output, lstm_tensors};
use crate::layout::{sum_of, total};
use crate::text::{decimal, to_decimal};
use crate::weights::{
    Fault, Loader, Tensor, lemma_stored1, lemma_stored2, lemma_stores_split, stores,
};

verus! {

/// 0.2 in single precision.
pub const SLOPE_0_2: u32 = 0x3e4c_cccd;

/// A convolution and a normalisation, as buffers.
#[derive(Clone, Copy, Debug, PartialEq, Eq, Structural)]
pub struct ConvBlock {
    pub conv: Conv,
    pub norm_weight: usize,
    pub norm_bias: usize,
}

/// The text encoder, as buffers.
#[derive(Clone, Copy, Debug, PartialEq, Eq, Structural)]
pub struct KokoroTextEncoder {
    pub embedding: usize,
    pub first: ConvBlock,
    pub second: ConvBlock,
    pub third: ConvBlock,
    pub lstm: KokoroBiLstm,
}

/// The complaints about a convolution of the encoder.
pub open spec fn conv_faults(prefix: Seq<char>) -> (Fault, Fault, Fault) {
    (
        kokoro_fixed("invalid "@ + prefix + ".weight_g"@).before(2),
        kokoro_fixed("invalid "@ + prefix + ".weight_v"@).before(1),
        kokoro_fixed("invalid "@ + prefix + ".bias"@),
    )
}

/// A vector of the encoder.
pub open spec fn vector_tensor(name: Seq<char>) -> Tensor {
    fixed(
        full_name("text_encoder"@, name),
        seq![512],
        "invalid "@ + full_name("text_encoder"@, name) + " shape"@,
    )
}

/// The tensors of block `index`.
pub open spec fn block_tensors(index: nat) -> Seq<Tensor> {
    let prefix = "module.cnn."@ + decimal(index);
    conv_tensors("text_encoder"@, prefix + ".0"@, conv_faults(prefix + ".0"@), 512, 512, 5, 512)
        + seq![vector_tensor(prefix + ".1.gamma"@), vector_tensor(prefix + ".1.beta"@)]
}

/// The tensors of the encoder.
pub open spec fn text_tensors() -> Seq<Tensor> {
    seq![
        fixed(
            full_name("text_encoder"@, "module.embedding.weight"@),
            seq![178, 512],
            "invalid Kokoro text embedding"@,
        ),
    ] + block_tensors(0) + block_tensors(1) + block_tensors(2) + lstm_tensors(
        "text_encoder"@,
        "module.lstm"@,
        512,
        256,
    )
}

/// Requires a vector of the encoder.
fn load_vector(loader: &mut Loader, name: &str) -> (buffer: usize)
    requires
        old(loader).wf(),
    ensures
        final(loader).wf(),
        buffer == old(loader).tensors().len(),
        final(loader).tensors() == old(loader).tensors().push(vector_tensor(name@)),
{
    let full = to_full_name("text_encoder", name);
    let message = "invalid ".to_owned().concat(full.as_str()).concat(" shape");
    loader.vector(full, 512, fixed_complaint(message.as_str()))
}

impl ConvBlock {
    /// The block whose first tensor is buffer `base`.
    pub open spec fn at(base: int) -> Self {
        ConvBlock {
            conv: Conv::at(base),
            norm_weight: (base + 3) as usize,
            norm_bias: (base + 4) as usize,
        }
    }

    /// The weights exist at their full size.
    pub open spec fn fits(self, plan: Plan) -> bool {
        &&& holds(plan, self.conv.weight, 1_310_720)
        &&& holds(plan, self.conv.bias, 512)
        &&& holds(plan, self.norm_weight, 512)
        &&& holds(plan, self.norm_bias, 512)
    }

    /// Requires the tensors of block `index`.
    fn load(loader: &mut Loader, index: u64) -> (block: Self)
        requires
            old(loader).wf(),
        ensures
            final(loader).wf(),
            block == Self::at(old(loader).tensors().len() as int),
            final(loader).tensors() == old(loader).tensors() + block_tensors(index as nat),
            final(loader).tensors().len() == old(loader).tensors().len() + 5,
    {
        let ghost before = loader.tensors();
        let prefix = "module.cnn.".to_owned().concat(&to_decimal(index));
        let name = prefix.clone().concat(".0");
        let label = "invalid ".to_owned().concat(name.as_str());
        let complaints = (
            fixed_complaint(label.clone().concat(".weight_g").as_str()).before(2),
            fixed_complaint(label.clone().concat(".weight_v").as_str()).before(1),
            fixed_complaint(label.clone().concat(".bias").as_str()),
        );
        let conv = Conv::load(
            loader,
            "text_encoder",
            name.as_str(),
            complaints,
            512,
            512,
            5,
            512,
        );
        let norm_weight: usize = load_vector(loader, prefix.clone().concat(".1.gamma").as_str());
        let norm_bias: usize = load_vector(loader, prefix.clone().concat(".1.beta").as_str());
        assert(loader.tensors() =~= before + block_tensors(index as nat));
        ConvBlock { conv, norm_weight, norm_bias }
    }
}

/// The convolutions of the encoder.
pub open spec fn text_conv() -> ConvShape {
    ConvShape { input: 512, output: 512, kernel: 5, stride: 1, padding: 2, dilation: 1 }
}

/// The rows after a block, from the rows before it.
pub open spec fn block_output(w: ConvBlock, v: Seq<Term>, rows: Term, frames: u32) -> Term {
    leaky_relu_f16(
        widened_norm(
            transpose_f16(
                conv1d(
                    transpose_f16(rows, frames, 512),
                    v[w.conv.weight as int],
                    v[w.conv.bias as int],
                    text_conv(),
                    frames,
                    frames,
                ),
                512,
                frames,
            ),
            v[w.norm_weight as int],
            v[w.norm_bias as int],
            frames,
            512,
            Scalar::Single(EPS_1E5),
        ),
        (frames * 512) as u32,
        Scalar::Single(SLOPE_0_2),
    )
}

impl ConvBlock {
    /// Runs the block on channel-first data. The result names the rows and
    /// the channels that come out.
    fn forward(&self, plan: &mut Plan, channels: usize, frames: u32, Ghost(start): Ghost<Plan>, Ghost(
        rows,
    ): Ghost<Term>) -> (out: (usize, usize))
        requires
            old(plan).wf(),
            extends(start, *old(plan)),
            self.fits(start),
            holds(*old(plan), channels, 512 * frames),
            old(plan).values()[channels as int] == transpose_f16(rows, frames, 512),
            frames * 512 <= u32::MAX,
            frames * 512 <= usize::MAX,
        ensures
            final(plan).wf(),
            extends(*old(plan), *final(plan)),
            out.0 < final(plan).values().len(),
            out.1 < final(plan).values().len(),
            final(plan).sizes()[out.0 as int] == frames * 512,
            final(plan).sizes()[out.1 as int] == frames * 512,
            final(plan).values()[out.0 as int] == block_output(*self, start.values(), rows, frames),
            final(plan).values()[out.1 as int] == transpose_f16(
                block_output(*self, start.values(), rows, frames),
                frames,
                512,
            ),
    {
        let shape = ConvShape {
            input: 512,
            output: 512,
            kernel: 5,
            stride: 1,
            padding: 2,
            dilation: 1,
        };
        let convolved: usize = run_conv1d(
            plan,
            channels,
            self.conv.weight,
            self.conv.bias,
            shape,
            frames,
            frames,
        );
        let turned: usize = run_transposed(plan, convolved, 512, frames);
        let normalized: usize = run_widened_norm(
            plan,
            turned,
            self.norm_weight,
            self.norm_bias,
            frames,
            512,
            Scalar::Single(EPS_1E5),
        );
        let activated: usize = run_leaky(
            plan,
            normalized,
            frames * 512,
            Scalar::Single(SLOPE_0_2),
        );
        let next: usize = run_transposed(plan, activated, frames, 512);
        (activated, next)
    }
}

/// Why tokens cannot be encoded, if they cannot.
pub open spec fn text_fault(ids: Seq<usize>, durations: Seq<usize>) -> Option<Seq<char>> {
    if ids.len() == 0 || ids.len() != durations.len() {
        Some("invalid Kokoro text/duration geometry"@)
    } else if exists|i: int| 0 <= i < ids.len() && #[trigger] ids[i] >= 178 {
        Some("Kokoro text token outside vocabulary"@)
    } else {
        None
    }
}

/// The rows of the tokens, one each.
pub open spec fn text_rows(w: KokoroTextEncoder, plan: Plan, ids: Seq<usize>) -> Term {
    let v = plan.values();
    let frames = ids.len() as u32;
    let embedded = gather_rows_f16(
        v[w.embedding as int],
        Term::Integers(uploaded(ids)),
        frames,
        512,
    );
    let first = block_output(w.first, v, embedded, frames);
    let second = block_output(w.second, v, first, frames);
    lstm_output(w.lstm, plan, block_output(w.third, v, second, frames), frames as int)
}

impl KokoroTextEncoder {
    /// The encoder whose first tensor is buffer `base`.
    pub open spec fn at(base: int) -> Self {
        KokoroTextEncoder {
            embedding: base as usize,
            first: ConvBlock::at(base + 1),
            second: ConvBlock::at(base + 6),
            third: ConvBlock::at(base + 11),
            lstm: KokoroBiLstm::at(base + 16, 512, 256),
        }
    }

    /// The weights exist at their full size.
    pub open spec fn fits(self, plan: Plan) -> bool {
        &&& holds(plan, self.embedding, 91_136)
        &&& self.first.fits(plan)
        &&& self.second.fits(plan)
        &&& self.third.fits(plan)
        &&& self.lstm.fits(plan)
        &&& self.lstm.input_size == 512
        &&& self.lstm.hidden_size == 256
    }

    /// Requires the tensors of the encoder.
    pub fn load(loader: &mut Loader) -> (encoder: Self)
        requires
            old(loader).wf(),
        ensures
            final(loader).wf(),
            encoder == Self::at(old(loader).tensors().len() as int),
            final(loader).tensors() == old(loader).tensors() + text_tensors(),
            final(loader).tensors().len() == old(loader).tensors().len() + 24,
    {
        let ghost before = loader.tensors();
        let embedding: usize = loader.matrix(
            to_full_name("text_encoder", "module.embedding.weight"),
            178,
            512,
            fixed_complaint("invalid Kokoro text embedding"),
        );
        let first = ConvBlock::load(loader, 0);
        let second = ConvBlock::load(loader, 1);
        let third = ConvBlock::load(loader, 2);
        let lstm = KokoroBiLstm::load(loader, "text_encoder", "module.lstm", 512, 256);
        assert(loader.tensors() =~= before + text_tensors());
        KokoroTextEncoder { embedding, first, second, third, lstm }
    }

    /// Encodes tokens and repeats each row as often as its duration says. The
    /// result names a buffer of rows of 512 values.
    pub fn encode_aligned(&self, plan: &mut Plan, ids: &[usize], durations: &[usize]) -> (outcome:
        Result<usize, String>)
        requires
            old(plan).wf(),
            self.fits(*old(plan)),
            ids@.len() * 1024 <= u32::MAX,
            ids@.len() * 1024 <= usize::MAX,
            total(durations@) <= i32::MAX,
            total(durations@) * 512 <= usize::MAX,
            forall|i: int| 0 <= i < durations@.len() ==> #[trigger] durations@[i] <= i32::MAX,
        ensures
            final(plan).wf(),
            outcome is Ok <==> text_fault(ids@, durations@) is None,
            match outcome {
                Err(message) => text_fault(ids@, durations@) == Some(message@) && *final(plan)
                    == *old(plan),
                Ok(rows) => {
                    &&& extends(*old(plan), *final(plan))
                    &&& rows < final(plan).values().len()
                    &&& final(plan).sizes()[rows as int] == total(durations@) * 512
                    &&& final(plan).values()[rows as int] == repeat_rows(
                        text_rows(*self, *old(plan), ids@),
                        Term::Integers(uploaded(durations@)),
                        ids@.len() as u32,
                        512,
                        total(durations@) as u32,
                    )
                },
            },
    {
        if ids.len() == 0 || ids.len() != durations.len() {
            return Err("invalid Kokoro text/duration geometry".to_owned());
        }
        if !all_below(ids, 178) {
            return Err("Kokoro text token outside vocabulary".to_owned());
        }
        let ghost start = *plan;
        let frames: u32 = ids.len() as u32;
        let numbers: usize = plan.upload(to_uploaded(ids).as_slice());
        let embedded: usize = plan.zeros(frames as usize * 512);
        plan.gather_rows_f16(self.embedding, numbers, embedded, frames, 512);
        let ghost rows0 = plan.values()[embedded as int];
        let channels: usize = run_transposed(plan, embedded, frames, 512);
        let (_, channels1) = self.first.forward(plan, channels, frames, Ghost(start), Ghost(rows0));
        let ghost rows1 = block_output(self.first, start.values(), rows0, frames);
        let (_, channels2) = self.second.forward(
            plan,
            channels1,
            frames,
            Ghost(start),
            Ghost(rows1),
        );
        let ghost rows2 = block_output(self.second, start.values(), rows1, frames);
        let (rows, _) = self.third.forward(plan, channels2, frames, Ghost(start), Ghost(rows2));
        let ghost middle = *plan;
        let encoded: usize = match self.lstm.forward(plan, rows, ids.len()) {
            Ok(encoded) => encoded,
            Err(message) => {
                return Err(message);
            },
        };
        proof {
            lemma_lstm_output_at(self.lstm, start, middle, middle.values()[rows as int], frames as int);
        }
        let counts: usize = plan.upload(to_uploaded(durations).as_slice());
        let frames_out: usize = sum_of(durations);
        let aligned: usize = plan.zeros(frames_out * 512);
        plan.repeat_rows(encoded, counts, aligned, frames, 512, frames_out as u32);
        Ok(aligned)
    }
}

impl ConvBlock {
    /// Loaded weights exist at their full size.
    proof fn lemma_loaded(plan: Plan, base: int, index: nat)
        requires
            stores(plan, base, block_tensors(index)),
        ensures
            Self::at(base).fits(plan),
    {
        let prefix = "module.cnn."@ + decimal(index);
        let name = prefix + ".0"@;
        let faults = conv_faults(name);
        let a = conv_tensors("text_encoder"@, name, faults, 512, 512, 5, 512);
        let b = seq![vector_tensor(prefix + ".1.gamma"@), vector_tensor(prefix + ".1.beta"@)];
        lemma_stores_split(plan, base, a, b);
        Conv::law_loaded_weights_fit(plan, base, "text_encoder"@, name, faults, 512, 512, 5, 512);
        lemma_stored1(plan, base + 3, b, 0, 512);
        lemma_stored1(plan, base + 3, b, 1, 512);
    }
}

impl KokoroTextEncoder {
    /// Loaded weights exist at their full size.
    pub proof fn law_loaded_weights_fit(plan: Plan, base: int)
        requires
            stores(plan, base, text_tensors()),
        ensures
            Self::at(base).fits(plan),
    {
        let t0 = seq![
            fixed(
                full_name("text_encoder"@, "module.embedding.weight"@),
                seq![178, 512],
                "invalid Kokoro text embedding"@,
            ),
        ];
        let p1 = block_tensors(0);
        let t1 = t0 + p1;
        let p2 = block_tensors(1);
        let t2 = t1 + p2;
        let p3 = block_tensors(2);
        let t3 = t2 + p3;
        let p4 = lstm_tensors("text_encoder"@, "module.lstm"@, 512, 256);
        let t4 = t3 + p4;
        lemma_stores_split(plan, base, t3, p4);
        lemma_stores_split(plan, base, t2, p3);
        lemma_stores_split(plan, base, t1, p2);
        lemma_stores_split(plan, base, t0, p1);
        lemma_stored2(plan, base, t0, 0, 178, 512);
        ConvBlock::lemma_loaded(plan, base + 1, 0);
        ConvBlock::lemma_loaded(plan, base + 6, 1);
        ConvBlock::lemma_loaded(plan, base + 11, 2);
        KokoroBiLstm::law_loaded_weights_fit(plan, base + 16, "text_encoder"@, "module.lstm"@, 512, 256);
    }
}

} // verus!
