//! The decoder up to the waveform generator.
use vstd::prelude::*;
use vstd::string::*;
use crate::arith::lemma_mul_comm;
use crate::device::{Plan, Term, extends, holds};
use crate::device::compound::{ConvShape, conv1d, run_conv1d, run_transposed};
use crate::device::value::{join_rows, transpose_f16};
use crate::kokoro::adain::{
    KokoroAdaInResBlock, block_rows, block_tensors, lemma_block_rows_at,
};
use crate::kokoro::checkpoint::{Conv, conv_tensors, fixed_complaint, kokoro_fixed};
use crate::weights::{Fault, Loader, Tensor, lemma_stores_split, stores};

verus! {

/// The decoder before the generator, as buffers.
#[derive(Clone, Copy, Debug, PartialEq, Eq, Structural)]
pub struct KokoroDecoderFrontend {
    pub first: KokoroAdaInResBlock,
    pub second: KokoroAdaInResBlock,
    pub third: KokoroAdaInResBlock,
    pub fourth: KokoroAdaInResBlock,
    pub f0_conv: Conv,
    pub noise_conv: Conv,
    pub asr_projection: Conv,
    pub encode: KokoroAdaInResBlock,
}

/// The complaints about a convolution of the decoder.
pub open spec fn conv_faults(prefix: Seq<char>) -> (Fault, Fault, Fault) {
    let message = "invalid Kokoro decoder convolution "@ + prefix;
    (
        kokoro_fixed(message).before(1),
        kokoro_fixed(message),
        kokoro_fixed("invalid "@ + prefix + ".bias"@),
    )
}

/// The tensors of a convolution of the decoder.
pub open spec fn decoder_conv(prefix: Seq<char>, input: usize, output: usize, kernel: usize) -> Seq<
    Tensor,
> {
    conv_tensors("decoder"@, prefix, conv_faults(prefix), output, input, kernel, output)
}

/// The tensors of the decoder.
pub open spec fn decoder_tensors() -> Seq<Tensor> {
    block_tensors("decoder"@, "module.decode.0"@, 1090, 1024, false) + block_tensors(
        "decoder"@,
        "module.decode.1"@,
        1090,
        1024,
        false,
    ) + block_tensors("decoder"@, "module.decode.2"@, 1090, 1024, false) + block_tensors(
        "decoder"@,
        "module.decode.3"@,
        1090,
        512,
        true,
    ) + decoder_conv("module.F0_conv"@, 1, 1, 3) + decoder_conv("module.N_conv"@, 1, 1, 3)
        + decoder_conv("module.asr_res.0"@, 512, 64, 1) + block_tensors(
        "decoder"@,
        "module.encode"@,
        514,
        1024,
        false,
    )
}

/// Requires a convolution of the decoder.
fn load_conv(loader: &mut Loader, prefix: &str, input: usize, output: usize, kernel: usize) -> (conv:
    Conv)
    requires
        old(loader).wf(),
        output * input <= usize::MAX,
        output * input * kernel <= usize::MAX,
    ensures
        final(loader).wf(),
        conv == Conv::at(old(loader).tensors().len() as int),
        final(loader).tensors() == old(loader).tensors() + decoder_conv(
            prefix@,
            input,
            output,
            kernel,
        ),
        final(loader).tensors().len() == old(loader).tensors().len() + 3,
{
    let message = "invalid Kokoro decoder convolution ".to_owned().concat(prefix);
    let complaints = (
        fixed_complaint(message.as_str()).before(1),
        fixed_complaint(message.as_str()),
        fixed_complaint("invalid ".to_owned().concat(prefix).concat(".bias").as_str()),
    );
    Conv::load(loader, "decoder", prefix, complaints, output, input, kernel, output)
}

/// How many frames come out of a convolution.
pub open spec fn conv_frames(shape: ConvShape, frames: int) -> int {
    (frames + 2 * shape.padding - (shape.kernel - 1) - 1) / (shape.stride as int) + 1
}

/// Halving: pitch and noise, two values per frame.
pub open spec fn halving() -> ConvShape {
    ConvShape { input: 1, output: 1, kernel: 3, stride: 2, padding: 1, dilation: 1 }
}

/// A narrow copy of the text rows.
pub open spec fn narrowing() -> ConvShape {
    ConvShape { input: 512, output: 64, kernel: 1, stride: 1, padding: 0, dilation: 1 }
}

/// Pitch and noise come out at one value per frame, and the text rows keep
/// their frames.
pub proof fn law_decoder_frames_agree(frames: int)
    requires
        frames > 0,
    ensures
        conv_frames(halving(), 2 * frames) == frames,
        conv_frames(narrowing(), frames) == frames,
{
}

/// The counts of a convolution.
proof fn lemma_products(shape: ConvShape, frames: int, input: int, output: int, kernel: int)
    requires
        shape.input == input,
        shape.output == output,
        shape.kernel == kernel,
    ensures
        shape.output * shape.input * shape.kernel == output * input * kernel,
        shape.output * frames == output * frames,
        frames * shape.input == frames * input,
{
}

/// A convolution over rows.
pub open spec fn conv_rows(w: Conv, v: Seq<Term>, rows: Term, shape: ConvShape, frames: u32) -> Term {
    let out = conv_frames(shape, frames as int) as u32;
    transpose_f16(
        conv1d(
            transpose_f16(rows, frames, shape.input),
            v[w.weight as int],
            v[w.bias as int],
            shape,
            frames,
            out,
        ),
        shape.output,
        out,
    )
}

/// Runs a convolution over rows. The result names a fresh buffer.
fn run_conv_rows(
    plan: &mut Plan,
    conv: &Conv,
    rows: usize,
    shape: ConvShape,
    frames: u32,
    Ghost(start): Ghost<Plan>,
) -> (out: usize)
    requires
        old(plan).wf(),
        extends(start, *old(plan)),
        shape.stride > 0,
        shape.kernel > 0,
        shape.kernel <= frames + 2 * shape.padding <= u32::MAX,
        holds(start, conv.weight, shape.output * shape.input * shape.kernel),
        holds(start, conv.bias, shape.output as int),
        holds(*old(plan), rows, frames * shape.input),
        shape.output * conv_frames(shape, frames as int) <= usize::MAX,
        conv_frames(shape, frames as int) <= u32::MAX,
    ensures
        final(plan).wf(),
        extends(*old(plan), *final(plan)),
        out < final(plan).values().len(),
        final(plan).sizes()[out as int] == shape.output * conv_frames(shape, frames as int),
        final(plan).values()[out as int] == conv_rows(
            *conv,
            start.values(),
            old(plan).values()[rows as int],
            shape,
            frames,
        ),
{
    let out_frames: u32 = (frames + 2 * shape.padding - (shape.kernel - 1) - 1) / shape.stride + 1;
    proof {
        lemma_mul_comm(frames as int, shape.input as int);
        lemma_mul_comm(shape.output as int, out_frames as int);
    }
    let channels: usize = run_transposed(plan, rows, frames, shape.input);
    let convolved: usize = run_conv1d(
        plan,
        channels,
        conv.weight,
        conv.bias,
        shape,
        frames,
        out_frames,
    );
    run_transposed(plan, convolved, shape.output, out_frames)
}

/// Text rows with pitch and noise behind each.
pub open spec fn encoder_input(asr: Term, f0: Term, noise: Term, frames: u32) -> Term {
    join_rows(join_rows(asr, f0, frames, 512, 1), noise, frames, 513, 1)
}

/// Hidden rows with the narrow text rows, pitch and noise behind each.
pub open spec fn decoder_input(hidden: Term, asr: Term, f0: Term, noise: Term, frames: u32) -> Term {
    join_rows(
        join_rows(join_rows(hidden, asr, frames, 1024, 64), f0, frames, 1088, 1),
        noise,
        frames,
        1089,
        1,
    )
}

/// Puts the rows of two buffers side by side. The result names a fresh buffer.
fn run_joined(plan: &mut Plan, a: usize, b: usize, frames: u32, width_a: u32, width_b: u32) -> (out:
    usize)
    requires
        old(plan).wf(),
        holds(*old(plan), a, frames * width_a),
        holds(*old(plan), b, frames * width_b),
        width_a + width_b <= u32::MAX,
        frames * (width_a + width_b) <= usize::MAX,
    ensures
        final(plan).wf(),
        out == old(plan).values().len(),
        final(plan).sizes() == old(plan).sizes().push((frames * (width_a + width_b)) as usize),
        final(plan).values() == old(plan).values().push(
            join_rows(
                old(plan).values()[a as int],
                old(plan).values()[b as int],
                frames,
                width_a,
                width_b,
            ),
        ),
{
    let ghost before = plan.values();
    let out: usize = plan.zeros(frames as usize * (width_a + width_b) as usize);
    plan.join_rows(a, b, out, frames, width_a, width_b);
    assert(plan.values() =~= before.push(
        join_rows(before[a as int], before[b as int], frames, width_a, width_b),
    ));
    out
}

/// Runs one decoder block on hidden rows of 1024 values. The result names the
/// rows that come out.
fn run_block(
    plan: &mut Plan,
    block: &KokoroAdaInResBlock,
    hidden: usize,
    asr: usize,
    f0: usize,
    noise: usize,
    style: usize,
    frames: u32,
    Ghost(start): Ghost<Plan>,
) -> (out: usize)
    requires
        old(plan).wf(),
        extends(start, *old(plan)),
        block.fits(start),
        block.input == 1090,
        block.output <= 1024,
        frames * 2180 <= u32::MAX,
        frames * 2180 <= usize::MAX,
        holds(*old(plan), hidden, frames * 1024),
        holds(*old(plan), asr, frames * 64),
        holds(*old(plan), f0, frames as int),
        holds(*old(plan), noise, frames as int),
        style < old(plan).values().len(),
        old(plan).sizes()[style as int] == 128,
    ensures
        final(plan).wf(),
        extends(*old(plan), *final(plan)),
        out < final(plan).values().len(),
        final(plan).sizes()[out as int] == (if block.upsample {
            2 * frames
        } else {
            frames as int
        }) * block.output,
        final(plan).values()[out as int] == block_rows(
            *block,
            start.values(),
            decoder_input(
                old(plan).values()[hidden as int],
                old(plan).values()[asr as int],
                old(plan).values()[f0 as int],
                old(plan).values()[noise as int],
                frames,
            ),
            old(plan).values()[style as int],
            frames,
        ),
{
    proof {
        assert(block.output * (2 * frames) <= 1024 * (2 * frames)) by (nonlinear_arith)
            requires
                block.output <= 1024,
                frames >= 0,
        ;
    }
    let a: usize = run_joined(plan, hidden, asr, frames, 1024, 64);
    let b: usize = run_joined(plan, a, f0, frames, 1088, 1);
    let input: usize = run_joined(plan, b, noise, frames, 1089, 1);
    let ghost middle = *plan;
    let out: usize = match block.forward(plan, input, frames as usize, style) {
        Ok(out) => out,
        Err(_) => 0,
    };
    proof {
        lemma_block_rows_at(
            *block,
            start,
            middle,
            middle.values()[input as int],
            middle.values()[style as int],
            frames,
        );
    }
    out
}

/// The rows that go to the generator.
pub open spec fn decoded(
    w: KokoroDecoderFrontend,
    v: Seq<Term>,
    asr: Term,
    f0: Term,
    noise: Term,
    style: Term,
    frames: u32,
) -> Term {
    let pitch = conv_rows(w.f0_conv, v, f0, halving(), (2 * frames) as u32);
    let hiss = conv_rows(w.noise_conv, v, noise, halving(), (2 * frames) as u32);
    let narrow = conv_rows(w.asr_projection, v, asr, narrowing(), frames);
    let h0 = block_rows(w.encode, v, encoder_input(asr, pitch, hiss, frames), style, frames);
    let h1 = block_rows(w.first, v, decoder_input(h0, narrow, pitch, hiss, frames), style, frames);
    let h2 = block_rows(w.second, v, decoder_input(h1, narrow, pitch, hiss, frames), style, frames);
    let h3 = block_rows(w.third, v, decoder_input(h2, narrow, pitch, hiss, frames), style, frames);
    block_rows(w.fourth, v, decoder_input(h3, narrow, pitch, hiss, frames), style, frames)
}

/// A block of these widths.
pub open spec fn is_block(w: KokoroAdaInResBlock, input: u32, output: u32, upsample: bool) -> bool {
    w.input == input && w.output == output && w.upsample == upsample
}

impl KokoroDecoderFrontend {
    /// The decoder whose first tensor is buffer `base`.
    pub open spec fn at(base: int) -> Self {
        KokoroDecoderFrontend {
            first: KokoroAdaInResBlock::at(base, 1090, 1024, false),
            second: KokoroAdaInResBlock::at(base + 12, 1090, 1024, false),
            third: KokoroAdaInResBlock::at(base + 24, 1090, 1024, false),
            fourth: KokoroAdaInResBlock::at(base + 36, 1090, 512, true),
            f0_conv: Conv::at(base + 51),
            noise_conv: Conv::at(base + 54),
            asr_projection: Conv::at(base + 57),
            encode: KokoroAdaInResBlock::at(base + 60, 514, 1024, false),
        }
    }

    /// The weights exist at their full size.
    pub open spec fn fits(self, plan: Plan) -> bool {
        &&& self.first.fits(plan) && is_block(self.first, 1090, 1024, false)
        &&& self.second.fits(plan) && is_block(self.second, 1090, 1024, false)
        &&& self.third.fits(plan) && is_block(self.third, 1090, 1024, false)
        &&& self.fourth.fits(plan) && is_block(self.fourth, 1090, 512, true)
        &&& self.encode.fits(plan) && is_block(self.encode, 514, 1024, false)
        &&& holds(plan, self.f0_conv.weight, 3)
        &&& holds(plan, self.f0_conv.bias, 1)
        &&& holds(plan, self.noise_conv.weight, 3)
        &&& holds(plan, self.noise_conv.bias, 1)
        &&& holds(plan, self.asr_projection.weight, 32_768)
        &&& holds(plan, self.asr_projection.bias, 64)
    }

    /// Requires the tensors of the decoder.
    pub fn load(loader: &mut Loader) -> (decoder: Self)
        requires
            old(loader).wf(),
        ensures
            final(loader).wf(),
            decoder == Self::at(old(loader).tensors().len() as int),
            final(loader).tensors() == old(loader).tensors() + decoder_tensors(),
            final(loader).tensors().len() == old(loader).tensors().len() + 72,
    {
        let ghost before = loader.tensors();
        let first = KokoroAdaInResBlock::load(loader, "decoder", "module.decode.0", 1090, 1024, false);
        let second = KokoroAdaInResBlock::load(loader, "decoder", "module.decode.1", 1090, 1024, false);
        let third = KokoroAdaInResBlock::load(loader, "decoder", "module.decode.2", 1090, 1024, false);
        let fourth = KokoroAdaInResBlock::load(loader, "decoder", "module.decode.3", 1090, 512, true);
        let f0_conv = load_conv(loader, "module.F0_conv", 1, 1, 3);
        let noise_conv = load_conv(loader, "module.N_conv", 1, 1, 3);
        let asr_projection = load_conv(loader, "module.asr_res.0", 512, 64, 1);
        let encode = KokoroAdaInResBlock::load(
            loader,
            "decoder",
            "module.encode",
            514,
            1024,
            false,
        );
        assert(loader.tensors() =~= before + decoder_tensors());
        KokoroDecoderFrontend {
            first,
            second,
            third,
            fourth,
            f0_conv,
            noise_conv,
            asr_projection,
            encode,
        }
    }

    /// Decodes text rows, pitch and noise of `frames` acoustic frames. The
    /// result names rows of 512 values, two per acoustic frame.
    #[verifier::rlimit(40)]
    pub fn decode(
        &self,
        plan: &mut Plan,
        asr: usize,
        f0: usize,
        noise: usize,
        frames: usize,
        style: usize,
    ) -> (outcome: Result<usize, String>)
        requires
            old(plan).wf(),
            self.fits(*old(plan)),
            asr < old(plan).values().len(),
            f0 < old(plan).values().len(),
            noise < old(plan).values().len(),
            style < old(plan).values().len(),
            frames > 0,
            frames * 2180 <= u32::MAX,
            frames * 2180 <= usize::MAX,
        ensures
            final(plan).wf(),
            outcome is Ok <==> decoder_accepts(*old(plan), asr, f0, noise, frames, style),
            match outcome {
                Err(message) => message@ == "invalid Kokoro decoder input geometry"@ && *final(plan)
                    == *old(plan),
                Ok(rows) => {
                    let v = old(plan).values();
                    &&& extends(*old(plan), *final(plan))
                    &&& rows < final(plan).values().len()
                    &&& final(plan).sizes()[rows as int] == 2 * frames * 512
                    &&& final(plan).values()[rows as int] == decoded(
                        *self,
                        v,
                        v[asr as int],
                        v[f0 as int],
                        v[noise as int],
                        v[style as int],
                        frames as u32,
                    )
                },
            },
    {
        if !(plan.size(asr) == frames * 512 && plan.size(f0) == frames * 2 && plan.size(noise)
            == frames * 2 && plan.size(style) == 128) {
            return Err("invalid Kokoro decoder input geometry".to_owned());
        }
        let ghost start = *plan;
        let t: u32 = frames as u32;
        proof {
            law_decoder_frames_agree(frames as int);
        }
        let half = ConvShape {
            input: 1,
            output: 1,
            kernel: 3,
            stride: 2,
            padding: 1,
            dilation: 1,
        };
        let narrow = ConvShape {
            input: 512,
            output: 64,
            kernel: 1,
            stride: 1,
            padding: 0,
            dilation: 1,
        };
        proof {
            lemma_products(half, t as int, 1, 1, 3);
            lemma_products(narrow, t as int, 512, 64, 1);
        }
        let pitch: usize = run_conv_rows(plan, &self.f0_conv, f0, half, 2 * t, Ghost(start));
        let hiss: usize = run_conv_rows(plan, &self.noise_conv, noise, half, 2 * t, Ghost(start));
        let slim: usize = run_conv_rows(plan, &self.asr_projection, asr, narrow, t, Ghost(start));
        let a: usize = run_joined(plan, asr, pitch, t, 512, 1);
        let input: usize = run_joined(plan, a, hiss, t, 513, 1);
        let ghost middle = *plan;
        let h0: usize = match self.encode.forward(plan, input, frames, style) {
            Ok(out) => out,
            Err(_) => 0,
        };
        proof {
            lemma_block_rows_at(
                self.encode,
                start,
                middle,
                middle.values()[input as int],
                middle.values()[style as int],
                t,
            );
        }
        let h1: usize = run_block(
            plan,
            &self.first,
            h0,
            slim,
            pitch,
            hiss,
            style,
            t,
            Ghost(start),
        );
        let h2: usize = run_block(
            plan,
            &self.second,
            h1,
            slim,
            pitch,
            hiss,
            style,
            t,
            Ghost(start),
        );
        let h3: usize = run_block(
            plan,
            &self.third,
            h2,
            slim,
            pitch,
            hiss,
            style,
            t,
            Ghost(start),
        );
        Ok(run_block(plan, &self.fourth, h3, slim, pitch, hiss, style, t, Ghost(start)))
    }
}

/// The buffers have the sizes that the decoder reads.
pub open spec fn decoder_accepts(
    plan: Plan,
    asr: usize,
    f0: usize,
    noise: usize,
    frames: usize,
    style: usize,
) -> bool {
    &&& plan.sizes()[asr as int] == frames * 512
    &&& plan.sizes()[f0 as int] == frames * 2
    &&& plan.sizes()[noise as int] == frames * 2
    &&& plan.sizes()[style as int] == 128
}

impl KokoroDecoderFrontend {
    /// Loaded weights exist at their full size.
    pub proof fn law_loaded_weights_fit(plan: Plan, base: int)
        requires
            stores(plan, base, decoder_tensors()),
        ensures
            Self::at(base).fits(plan),
    {
        let t0 = block_tensors("decoder"@, "module.decode.0"@, 1090, 1024, false);
        let p1 = block_tensors("decoder"@, "module.decode.1"@, 1090, 1024, false);
        let t1 = t0 + p1;
        let p2 = block_tensors("decoder"@, "module.decode.2"@, 1090, 1024, false);
        let t2 = t1 + p2;
        let p3 = block_tensors("decoder"@, "module.decode.3"@, 1090, 512, true);
        let t3 = t2 + p3;
        let p4 = decoder_conv("module.F0_conv"@, 1, 1, 3);
        let t4 = t3 + p4;
        let p5 = decoder_conv("module.N_conv"@, 1, 1, 3);
        let t5 = t4 + p5;
        let p6 = decoder_conv("module.asr_res.0"@, 512, 64, 1);
        let t6 = t5 + p6;
        let p7 = block_tensors("decoder"@, "module.encode"@, 514, 1024, false);
        let t7 = t6 + p7;
        lemma_stores_split(plan, base, t6, p7);
        lemma_stores_split(plan, base, t5, p6);
        lemma_stores_split(plan, base, t4, p5);
        lemma_stores_split(plan, base, t3, p4);
        lemma_stores_split(plan, base, t2, p3);
        lemma_stores_split(plan, base, t1, p2);
        lemma_stores_split(plan, base, t0, p1);
        KokoroAdaInResBlock::law_loaded_weights_fit(plan, base, "decoder"@, "module.decode.0"@, 1090, 1024, false);
        KokoroAdaInResBlock::law_loaded_weights_fit(plan, base + 12, "decoder"@, "module.decode.1"@, 1090, 1024, false);
        KokoroAdaInResBlock::law_loaded_weights_fit(plan, base + 24, "decoder"@, "module.decode.2"@, 1090, 1024, false);
        KokoroAdaInResBlock::law_loaded_weights_fit(plan, base + 36, "decoder"@, "module.decode.3"@, 1090, 512, true);
        Conv::law_loaded_weights_fit(plan, base + 51, "decoder"@, "module.F0_conv"@, conv_faults("module.F0_conv"@), 1, 1, 3, 1);
        Conv::law_loaded_weights_fit(plan, base + 54, "decoder"@, "module.N_conv"@, conv_faults("module.N_conv"@), 1, 1, 3, 1);
        Conv::law_loaded_weights_fit(plan, base + 57, "decoder"@, "module.asr_res.0"@, conv_faults("module.asr_res.0"@), 64, 512, 1, 64);
        KokoroAdaInResBlock::law_loaded_weights_fit(plan, base + 60, "decoder"@, "module.encode"@, 514, 1024, false);
    }
}

} // verus!
