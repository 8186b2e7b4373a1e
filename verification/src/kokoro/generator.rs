//! The waveform generator, up to the spectrum that is inverted.
use vstd::prelude::*;
use vstd::string::*;
use crate::chatterbox::hift::reflected;
use crate::device::{Plan, Scalar, Term, extends, holds};
use crate::device::compound::{
    ConvShape, run_leaky, run_scaled, run_sum, run_transposed, run_unfolded_conv, unfolded_conv,
};
use crate::device::value::{
    add_f16, leaky_relu_f16, reflection_pad_left_f16, scale_f16, transpose_f16,
};
use crate::kokoro::checkpoint::{
    Conv, conv_tensors, fixed, fixed_complaint, full_name, thrice, thrice_fixed, to_full_name,
};
use crate::kokoro::generator_res::{
    KokoroGeneratorResBlock, res_output, res_tensors, res_widths_fit,
};
use crate::kokoro::upsample::{ConvTranspose, transpose_tensors, upsampled};
use crate::weights::{
    Loader, Tensor, lemma_stored1, lemma_stored2, lemma_stored3, lemma_stores_split, stores,
};

verus! {

/// 0.1 in single precision.
pub const SLOPE_0_1: u32 = 0x3dcc_cccd;

/// 0.01 in single precision.
pub const SLOPE_0_01: u32 = 0x3c23_d70a;

/// One third in single precision.
pub const ONE_THIRD: u32 = 0x3eaa_aaab;

/// The index that a position in a padded signal is reflected to.
pub fn reflect(padded_position: usize, padding: usize, len: usize) -> (position: usize)
    requires
        padded_position <= isize::MAX,
        padding <= isize::MAX,
        2 * len <= isize::MAX,
        padded_position - padding < 2 * len - 1,
    ensures
        position == reflected(padded_position - padding, len as int),
{
    let inner: isize = padded_position as isize - padding as isize;
    if inner < 0 {
        (-inner) as usize
    } else if inner >= len as isize {
        (2 * len as isize - inner - 2) as usize
    } else {
        inner as usize
    }
}

/// A position less than one length away from a signal is reflected into it.
pub proof fn law_padding_is_reflected_into_the_signal(padded_position: int, padding: int, len: int)
    requires
        -len < padded_position - padding < 2 * len - 1,
    ensures
        0 <= reflected(padded_position - padding, len) < len,
{
}

/// The padding in front of a signal mirrors it around its first sample.
pub proof fn law_padding_mirrors_the_start(i: int, padding: int, len: int)
    requires
        1 <= i < len,
        i <= padding,
    ensures
        reflected((padding - i) - padding, len) == i,
        reflected((padding + i) - padding, len) == i,
{
}

/// How many frames the transform of a centred signal has: windows of 20
/// samples, 5 apart.
pub open spec fn source_frames(samples: int) -> int {
    samples / 5 + 1
}

/// How many samples come back from that many frames, once the padding is cut
/// off.
pub open spec fn wave_samples(frames: int) -> int {
    20 + 5 * (frames - 1) - 20
}

/// Every window of the transform reads samples only.
pub proof fn law_windows_read_samples_only(samples: int, frame: int, index: int)
    requires
        samples > 10,
        0 <= frame < source_frames(samples),
        0 <= index < 20,
    ensures
        0 <= reflected(frame * 5 + index - 10, samples) < samples,
{
}

/// A frame of the latent gives 300 samples: the excitation is transformed to
/// as many frames as the main branch has, and those give back 300 samples.
pub proof fn law_300_samples_per_latent_frame(frames: int)
    requires
        frames > 0,
    ensures
        source_frames(300 * frames) == 60 * frames + 1,
        wave_samples(60 * frames + 1) == 300 * frames,
{
}

/// A plain convolution, as buffers.
#[derive(Clone, Copy, Debug, PartialEq, Eq, Structural)]
pub struct PlainConv {
    pub weight: usize,
    pub bias: usize,
}

/// The tensors of a plain convolution.
pub open spec fn plain_tensors(prefix: Seq<char>, input: usize, output: usize, kernel: usize) -> Seq<
    Tensor,
> {
    let message = "invalid Kokoro generator convolution "@ + prefix;
    seq![
        fixed(full_name("decoder"@, prefix + ".weight"@), seq![output, input, kernel], message).before(1),
        fixed(full_name("decoder"@, prefix + ".bias"@), seq![output], message),
    ]
}

impl PlainConv {
    /// The convolution whose first tensor is buffer `base`.
    pub open spec fn at(base: int) -> Self {
        PlainConv { weight: base as usize, bias: (base + 1) as usize }
    }

    /// Requires the tensors of a plain convolution.
    fn load(loader: &mut Loader, prefix: &str, input: usize, output: usize, kernel: usize) -> (conv:
        Self)
        requires
            old(loader).wf(),
            output * input <= usize::MAX,
            output * input * kernel <= usize::MAX,
        ensures
            final(loader).wf(),
            conv == Self::at(old(loader).tensors().len() as int),
            final(loader).tensors() == old(loader).tensors() + plain_tensors(
                prefix@,
                input,
                output,
                kernel,
            ),
            final(loader).tensors().len() == old(loader).tensors().len() + 2,
    {
        let ghost before = loader.tensors();
        let message = "invalid Kokoro generator convolution ".to_owned().concat(prefix);
        let weight: usize = loader.cube(
            to_full_name("decoder", prefix.to_owned().concat(".weight").as_str()),
            output,
            input,
            kernel,
            fixed_complaint(message.as_str()).before(1),
        );
        let bias: usize = loader.vector(
            to_full_name("decoder", prefix.to_owned().concat(".bias").as_str()),
            output,
            fixed_complaint(message.as_str()),
        );
        assert(loader.tensors() =~= before + plain_tensors(prefix@, input, output, kernel));
        PlainConv { weight, bias }
    }
}

/// One upsampling stage: the transposed convolution, the branch of the
/// excitation and three parallel residual blocks.
#[derive(Clone, Copy, Debug, PartialEq, Eq, Structural)]
pub struct GeneratorStage {
    pub up: ConvTranspose,
    pub noise_conv: PlainConv,
    pub noise_res: KokoroGeneratorResBlock,
    pub first: KokoroGeneratorResBlock,
    pub second: KokoroGeneratorResBlock,
    pub third: KokoroGeneratorResBlock,
    /// Shape of the excitation's convolution.
    pub noise_shape: ConvShape,
    /// Whether a frame is put in front of the upsampled ones.
    pub pads: bool,
}

/// The generator, as buffers.
#[derive(Clone, Copy, Debug, PartialEq, Eq, Structural)]
pub struct KokoroGenerator {
    pub source_weight: usize,
    pub source_bias: usize,
    pub coarse: GeneratorStage,
    pub fine: GeneratorStage,
    pub conv_post: Conv,
}

/// The excitation's convolution in the first stage.
pub open spec fn coarse_noise() -> ConvShape {
    ConvShape { input: 22, output: 256, kernel: 12, stride: 6, padding: 3, dilation: 1 }
}

/// The excitation's convolution in the second stage.
pub open spec fn fine_noise() -> ConvShape {
    ConvShape { input: 22, output: 128, kernel: 1, stride: 1, padding: 0, dilation: 1 }
}

/// The convolution that gives the spectrum.
pub open spec fn post_shape() -> ConvShape {
    ConvShape { input: 128, output: 22, kernel: 7, stride: 1, padding: 3, dilation: 1 }
}

/// How many frames come out of a convolution of the generator.
pub open spec fn conv_frames(shape: ConvShape, frames: int) -> int {
    (frames + 2 * shape.padding - shape.kernel) / (shape.stride as int) + 1
}

/// In each stage the excitation has as many frames as the main branch.
pub proof fn law_excitation_meets_the_main_branch(frames: int)
    requires
        frames > 0,
    ensures
        conv_frames(coarse_noise(), 60 * frames + 1) == 10 * frames,
        conv_frames(fine_noise(), 60 * frames + 1) == 6 * (10 * frames) + 1,
        conv_frames(post_shape(), 60 * frames + 1) == 60 * frames + 1,
{
}

/// The tensors in front of the residual blocks.
#[verifier::opaque]
pub open spec fn front_tensors() -> Seq<Tensor> {
    seq![
        fixed(
            full_name("decoder"@, "module.generator.m_source.l_linear.weight"@),
            seq![1, 9],
            "invalid Kokoro generator source"@,
        ).before(1),
        fixed(
            full_name("decoder"@, "module.generator.m_source.l_linear.bias"@),
            seq![1],
            "invalid Kokoro generator source"@,
        ),
    ] + transpose_tensors("module.generator.ups.0"@, 512, 256, 20) + transpose_tensors(
        "module.generator.ups.1"@,
        256,
        128,
        12,
    ) + plain_tensors("module.generator.noise_convs.0"@, 22, 256, 12) + plain_tensors(
        "module.generator.noise_convs.1"@,
        22,
        128,
        1,
    )
}

/// The tensors of the residual blocks of the excitation.
pub open spec fn excitation_tensors() -> Seq<Tensor> {
    res_tensors("module.generator.noise_res.0"@, 256, 7) + res_tensors(
        "module.generator.noise_res.1"@,
        128,
        11,
    )
}

/// The tensors of the residual blocks of the first stage.
pub open spec fn coarse_tensors() -> Seq<Tensor> {
    res_tensors("module.generator.resblocks.0"@, 256, 3) + res_tensors(
        "module.generator.resblocks.1"@,
        256,
        7,
    ) + res_tensors("module.generator.resblocks.2"@, 256, 11)
}

/// The tensors of the residual blocks of the second stage.
pub open spec fn fine_tensors() -> Seq<Tensor> {
    res_tensors("module.generator.resblocks.3"@, 128, 3) + res_tensors(
        "module.generator.resblocks.4"@,
        128,
        7,
    ) + res_tensors("module.generator.resblocks.5"@, 128, 11)
}

/// The tensors of the convolution that gives the spectrum.
#[verifier::opaque]
pub open spec fn post_tensors() -> Seq<Tensor> {
    conv_tensors(
        "decoder"@,
        "module.generator.conv_post"@,
        thrice_fixed(
            "invalid Kokoro weight-normalized convolution "@ + "module.generator.conv_post"@,
        ),
        22,
        128,
        7,
        22,
    )
}

/// The tensors of the generator.
pub open spec fn generator_tensors() -> Seq<Tensor> {
    front_tensors() + excitation_tensors() + coarse_tensors() + fine_tensors() + post_tensors()
}

/// What comes in front of the residual blocks.
struct Front {
    source_weight: usize,
    source_bias: usize,
    up0: ConvTranspose,
    up1: ConvTranspose,
    noise0: PlainConv,
    noise1: PlainConv,
}

/// Requires the tensors in front of the residual blocks.
fn load_front(loader: &mut Loader) -> (outcome: Result<Front, String>)
    requires
        old(loader).wf(),
    ensures
        final(loader).wf(),
        ({
            let base = old(loader).tensors().len() as int;
            outcome matches Ok(front) && front.source_weight == base && front.source_bias == base
                + 1 && front.up0 == ConvTranspose::at(base + 2, 512, 256, 20, 10, 5) && front.up1
                == ConvTranspose::at(base + 5, 256, 128, 12, 6, 3) && front.noise0
                == PlainConv::at(base + 8) && front.noise1 == PlainConv::at(base + 10)
        }),
        final(loader).tensors() == old(loader).tensors() + front_tensors(),
        final(loader).tensors().len() == old(loader).tensors().len() + 12,
{
    let ghost before = loader.tensors();
    let source_weight: usize = loader.matrix(
        to_full_name("decoder", "module.generator.m_source.l_linear.weight"),
        1,
        9,
        fixed_complaint("invalid Kokoro generator source").before(1),
    );
    let source_bias: usize = loader.vector(
        to_full_name("decoder", "module.generator.m_source.l_linear.bias"),
        1,
        fixed_complaint("invalid Kokoro generator source"),
    );
    let up0 = match ConvTranspose::load(loader, "module.generator.ups.0", 512, 256, 20, 10, 5) {
        Ok(up) => up,
        Err(message) => {
            return Err(message);
        },
    };
    let up1 = match ConvTranspose::load(loader, "module.generator.ups.1", 256, 128, 12, 6, 3) {
        Ok(up) => up,
        Err(message) => {
            return Err(message);
        },
    };
    let noise0 = PlainConv::load(loader, "module.generator.noise_convs.0", 22, 256, 12);
    let noise1 = PlainConv::load(loader, "module.generator.noise_convs.1", 22, 128, 1);
    reveal(front_tensors);
    assert(loader.tensors() =~= before + front_tensors());
    Ok(Front { source_weight, source_bias, up0, up1, noise0, noise1 })
}

/// Requires the tensors of three parallel residual blocks.
fn load_triple(loader: &mut Loader, names: (&str, &str, &str), channels: u32) -> (blocks: (
    KokoroGeneratorResBlock,
    KokoroGeneratorResBlock,
    KokoroGeneratorResBlock,
))
    requires
        old(loader).wf(),
        channels <= 256,
    ensures
        final(loader).wf(),
        blocks.0 == KokoroGeneratorResBlock::at(old(loader).tensors().len() as int, channels, 3),
        blocks.1 == KokoroGeneratorResBlock::at(
            old(loader).tensors().len() as int + 36,
            channels,
            7,
        ),
        blocks.2 == KokoroGeneratorResBlock::at(
            old(loader).tensors().len() as int + 72,
            channels,
            11,
        ),
        final(loader).tensors() == old(loader).tensors() + (res_tensors(
            names.0@,
            channels as usize,
            3,
        ) + res_tensors(names.1@, channels as usize, 7) + res_tensors(
            names.2@,
            channels as usize,
            11,
        )),
        final(loader).tensors().len() == old(loader).tensors().len() + 108,
{
    let ghost before = loader.tensors();
    proof {
        lemma_widths(channels as usize, 3);
        lemma_widths(channels as usize, 7);
        lemma_widths(channels as usize, 11);
    }
    let a = KokoroGeneratorResBlock::load(loader, names.0, channels, 3);
    let b = KokoroGeneratorResBlock::load(loader, names.1, channels, 7);
    let c = KokoroGeneratorResBlock::load(loader, names.2, channels, 11);
    proof {
        let x = res_tensors(names.0@, channels as usize, 3);
        let y = res_tensors(names.1@, channels as usize, 7);
        let z = res_tensors(names.2@, channels as usize, 11);
        lemma_three(before, x, y, z);
    }
    (a, b, c)
}

proof fn lemma_widths(channels: usize, kernel: usize)
    requires
        channels <= 256,
        kernel <= 11,
    ensures
        res_widths_fit(channels, kernel),
{
    assert(0 <= channels * channels <= 65_536) by (nonlinear_arith)
        requires
            0 <= channels <= 256,
    ;
    assert(channels * channels * kernel <= 720_896) by (nonlinear_arith)
        requires
            0 <= channels * channels <= 65_536,
            0 <= kernel <= 11,
    ;
}

proof fn lemma_three<T>(a: Seq<T>, b: Seq<T>, c: Seq<T>, d: Seq<T>)
    ensures
        a + b + c + d == a + (b + c + d),
{
    assert(a + b + c + d =~= a + (b + c + d));
}

/// What the upsampled main branch and the excitation add up to.
pub open spec fn fused(
    w: GeneratorStage,
    v: Seq<Term>,
    hidden: Term,
    source: Term,
    style: Term,
    frames: u32,
    in_frames: u32,
) -> Term {
    let out = stage_frames(w, frames as int) as u32;
    let up = upsampled(
        w.up,
        v,
        leaky_relu_f16(hidden, (w.up.input * frames) as u32, Scalar::Single(SLOPE_0_1)),
        frames,
    );
    let main = if w.pads {
        reflection_pad_left_f16(up, w.up.output, (frames * w.up.stride) as u32)
    } else {
        up
    };
    let side = res_output(
        w.noise_res,
        v,
        unfolded_conv(
            source,
            v[w.noise_conv.weight as int],
            v[w.noise_conv.bias as int],
            w.noise_shape,
            in_frames,
            out,
        ),
        style,
        out,
    );
    add_f16(main, side, (w.up.output * out) as u32)
}

/// How many frames a stage gives.
pub open spec fn stage_frames(w: GeneratorStage, frames: int) -> int {
    frames * w.up.stride + (if w.pads {
        1int
    } else {
        0
    })
}

/// The mean of the three residual blocks of a stage.
pub open spec fn blended(w: GeneratorStage, v: Seq<Term>, x: Term, style: Term, frames: u32) -> Term {
    let n = (w.up.output * frames) as u32;
    scale_f16(
        add_f16(
            add_f16(
                res_output(w.first, v, x, style, frames),
                res_output(w.second, v, x, style, frames),
                n,
            ),
            res_output(w.third, v, x, style, frames),
            n,
        ),
        n,
        Scalar::Single(ONE_THIRD),
    )
}

/// The channels after a stage.
#[verifier::opaque]
pub open spec fn stage_output(
    w: GeneratorStage,
    v: Seq<Term>,
    hidden: Term,
    source: Term,
    style: Term,
    frames: u32,
    in_frames: u32,
) -> Term {
    blended(
        w,
        v,
        fused(w, v, hidden, source, style, frames, in_frames),
        style,
        stage_frames(w, frames as int) as u32,
    )
}

impl GeneratorStage {
    /// The weights exist at their full size, and the widths agree.
    pub open spec fn fits(self, plan: Plan) -> bool {
        let s = self.noise_shape;
        &&& self.up.fits(plan)
        &&& holds(plan, self.noise_conv.weight, s.output * s.input * s.kernel)
        &&& holds(plan, self.noise_conv.bias, s.output as int)
        &&& self.noise_res.fits(plan)
        &&& self.first.fits(plan)
        &&& self.second.fits(plan)
        &&& self.third.fits(plan)
        &&& s.output == self.up.output
        &&& self.noise_res.channels == self.up.output
        &&& self.first.channels == self.up.output
        &&& self.second.channels == self.up.output
        &&& self.third.channels == self.up.output
    }

    /// Everything the stage counts can be counted, and the excitation meets
    /// the main branch.
    pub open spec fn countable(self, frames: int, in_frames: int) -> bool {
        let out = stage_frames(self, frames);
        let s = self.noise_shape;
        &&& self.up.countable(frames)
        &&& self.up.input * frames <= u32::MAX
        &&& 0 <= in_frames <= u32::MAX
        &&& out <= u32::MAX
        &&& self.up.output * out <= u32::MAX
        &&& self.up.output * out <= usize::MAX
        &&& s.input * s.kernel <= u32::MAX
        &&& out * (s.input * s.kernel) <= usize::MAX
        &&& self.noise_res.countable(out)
        &&& self.first.countable(out)
        &&& self.second.countable(out)
        &&& self.third.countable(out)
        &&& conv_frames(s, in_frames) == out
    }

    /// Adds the excitation to the upsampled main branch. The result names a
    /// fresh buffer.
    fn run_fused(
        &self,
        plan: &mut Plan,
        hidden: usize,
        source: usize,
        style: usize,
        frames: u32,
        in_frames: u32,
        Ghost(start): Ghost<Plan>,
    ) -> (out: usize)
        requires
            old(plan).wf(),
            extends(start, *old(plan)),
            self.fits(start),
            self.countable(frames as int, in_frames as int),
            holds(*old(plan), hidden, self.up.input * frames),
            holds(*old(plan), source, self.noise_shape.input * in_frames),
            holds(*old(plan), style, 128),
        ensures
            final(plan).wf(),
            extends(*old(plan), *final(plan)),
            out < final(plan).values().len(),
            final(plan).sizes()[out as int] == self.up.output * stage_frames(*self, frames as int),
            final(plan).values()[out as int] == fused(
                *self,
                start.values(),
                old(plan).values()[hidden as int],
                old(plan).values()[source as int],
                old(plan).values()[style as int],
                frames,
                in_frames,
            ),
    {
        let activated: usize = run_leaky(
            plan,
            hidden,
            self.up.input * frames,
            Scalar::Single(SLOPE_0_1),
        );
        let wide: u32 = frames * self.up.stride;
        let out_frames: u32 = if self.pads {
            wide + 1
        } else {
            wide
        };
        let branch: usize = run_unfolded_conv(
            plan,
            source,
            self.noise_conv.weight,
            self.noise_conv.bias,
            self.noise_shape,
            in_frames,
            out_frames,
        );
        let side: usize = self.noise_res.forward_device(
            plan,
            branch,
            out_frames,
            style,
            Ghost(start),
        );
        let up: usize = self.up.forward(plan, activated, frames, Ghost(start));
        let main: usize = if self.pads {
            let padded: usize = plan.zeros(self.up.output as usize * out_frames as usize);
            plan.reflection_pad_left_f16(up, padded, self.up.output, wide);
            padded
        } else {
            up
        };
        run_sum(plan, main, side, self.up.output * out_frames)
    }

    /// Runs the stage. The result names a fresh buffer.
    fn forward(
        &self,
        plan: &mut Plan,
        hidden: usize,
        source: usize,
        style: usize,
        frames: u32,
        in_frames: u32,
        Ghost(start): Ghost<Plan>,
    ) -> (out: usize)
        requires
            old(plan).wf(),
            extends(start, *old(plan)),
            self.fits(start),
            self.countable(frames as int, in_frames as int),
            holds(*old(plan), hidden, self.up.input * frames),
            holds(*old(plan), source, self.noise_shape.input * in_frames),
            holds(*old(plan), style, 128),
        ensures
            final(plan).wf(),
            extends(*old(plan), *final(plan)),
            out < final(plan).values().len(),
            final(plan).sizes()[out as int] == self.up.output * stage_frames(*self, frames as int),
            final(plan).values()[out as int] == stage_output(
                *self,
                start.values(),
                old(plan).values()[hidden as int],
                old(plan).values()[source as int],
                old(plan).values()[style as int],
                frames,
                in_frames,
            ),
    {
        reveal(stage_output);
        let x: usize = self.run_fused(
            plan,
            hidden,
            source,
            style,
            frames,
            in_frames,
            Ghost(start),
        );
        let out_frames: u32 = if self.pads {
            frames * self.up.stride + 1
        } else {
            frames * self.up.stride
        };
        let n: u32 = self.up.output * out_frames;
        let a: usize = self.first.forward_device(plan, x, out_frames, style, Ghost(start));
        let b: usize = self.second.forward_device(plan, x, out_frames, style, Ghost(start));
        let c: usize = self.third.forward_device(plan, x, out_frames, style, Ghost(start));
        let ab: usize = run_sum(plan, a, b, n);
        let abc: usize = run_sum(plan, ab, c, n);
        run_scaled(plan, abc, n, Scalar::Single(ONE_THIRD))
    }
}

/// The spectrum of an utterance, from the latent rows and the transform of
/// the excitation.
pub open spec fn spectrum(
    w: KokoroGenerator,
    v: Seq<Term>,
    latent: Term,
    source: Term,
    style: Term,
    frames: u32,
) -> Term {
    let fine = (10 * frames) as u32;
    let full = (60 * frames + 1) as u32;
    let first = stage_output(
        w.coarse,
        v,
        transpose_f16(latent, frames, 512),
        source,
        style,
        frames,
        full,
    );
    let second = stage_output(w.fine, v, first, source, style, fine, full);
    unfolded_conv(
        leaky_relu_f16(second, (128 * full) as u32, Scalar::Single(SLOPE_0_01)),
        v[w.conv_post.weight as int],
        v[w.conv_post.bias as int],
        post_shape(),
        full,
        full,
    )
}

/// Why a waveform cannot be generated, if it cannot.
pub open spec fn generator_fault(
    latent_len: usize,
    f0_len: usize,
    frames: usize,
    style_len: usize,
    source_len: usize,
) -> Option<Seq<char>> {
    if latent_len != frames * 512 || f0_len != frames || style_len != 128 {
        Some("invalid Kokoro generator input"@)
    } else if source_len != (frames * 60 + 1) * 22 {
        Some("invalid Kokoro source STFT"@)
    } else {
        None
    }
}

proof fn lemma_generator_tensors(before: Seq<Tensor>)
    ensures
        before + front_tensors() + res_tensors("module.generator.noise_res.0"@, 256, 7)
            + res_tensors("module.generator.noise_res.1"@, 128, 11) + coarse_tensors()
            + fine_tensors() + post_tensors() == before + generator_tensors(),
{
    let x = res_tensors("module.generator.noise_res.0"@, 256, 7);
    let y = res_tensors("module.generator.noise_res.1"@, 128, 11);
    let f = front_tensors();
    let c = coarse_tensors();
    let g = fine_tensors();
    let p = post_tensors();
    lemma_six(before, f, x, y, c, g, p);
}

proof fn lemma_six<T>(
    a: Seq<T>,
    b: Seq<T>,
    c: Seq<T>,
    d: Seq<T>,
    e: Seq<T>,
    f: Seq<T>,
    g: Seq<T>,
)
    ensures
        a + b + c + d + e + f + g == a + (b + (c + d) + e + f + g),
{
    assert(a + b + c + d + e + f + g =~= a + (b + (c + d) + e + f + g));
}

impl KokoroGenerator {
    /// The generator whose first tensor is buffer `base`.
    pub open spec fn at(base: int) -> Self {
        KokoroGenerator {
            source_weight: base as usize,
            source_bias: (base + 1) as usize,
            coarse: GeneratorStage {
                up: ConvTranspose::at(base + 2, 512, 256, 20, 10, 5),
                noise_conv: PlainConv::at(base + 8),
                noise_res: KokoroGeneratorResBlock::at(base + 12, 256, 7),
                first: KokoroGeneratorResBlock::at(base + 84, 256, 3),
                second: KokoroGeneratorResBlock::at(base + 120, 256, 7),
                third: KokoroGeneratorResBlock::at(base + 156, 256, 11),
                noise_shape: coarse_noise(),
                pads: false,
            },
            fine: GeneratorStage {
                up: ConvTranspose::at(base + 5, 256, 128, 12, 6, 3),
                noise_conv: PlainConv::at(base + 10),
                noise_res: KokoroGeneratorResBlock::at(base + 48, 128, 11),
                first: KokoroGeneratorResBlock::at(base + 192, 128, 3),
                second: KokoroGeneratorResBlock::at(base + 228, 128, 7),
                third: KokoroGeneratorResBlock::at(base + 264, 128, 11),
                noise_shape: fine_noise(),
                pads: true,
            },
            conv_post: Conv::at(base + 300),
        }
    }

    /// The stages have the numbers of the model.
    pub open spec fn shaped(self) -> bool {
        let c = self.coarse;
        let f = self.fine;
        &&& (c.up.input, c.up.output, c.up.kernel, c.up.stride, c.up.padding) == (
            512u32,
            256u32,
            20u32,
            10u32,
            5u32,
        )
        &&& (f.up.input, f.up.output, f.up.kernel, f.up.stride, f.up.padding) == (
            256u32,
            128u32,
            12u32,
            6u32,
            3u32,
        )
        &&& c.noise_shape == coarse_noise() && !c.pads
        &&& f.noise_shape == fine_noise() && f.pads
        &&& (c.noise_res.kernel, c.first.kernel, c.second.kernel, c.third.kernel) == (
            7u32,
            3u32,
            7u32,
            11u32,
        )
        &&& (f.noise_res.kernel, f.first.kernel, f.second.kernel, f.third.kernel) == (
            11u32,
            3u32,
            7u32,
            11u32,
        )
    }

    /// The weights exist at their full size.
    pub open spec fn fits(self, plan: Plan) -> bool {
        &&& self.shaped()
        &&& self.coarse.fits(plan)
        &&& self.fine.fits(plan)
        &&& holds(plan, self.source_weight, 9)
        &&& holds(plan, self.source_bias, 1)
        &&& holds(plan, self.conv_post.weight, 19_712)
        &&& holds(plan, self.conv_post.bias, 22)
    }

    /// Requires the tensors of the generator.
    pub fn load(loader: &mut Loader) -> (outcome: Result<Self, String>)
        requires
            old(loader).wf(),
        ensures
            final(loader).wf(),
            outcome matches Ok(generator) && generator == Self::at(
                old(loader).tensors().len() as int,
            ),
            final(loader).tensors() == old(loader).tensors() + generator_tensors(),
            final(loader).tensors().len() == old(loader).tensors().len() + 303,
    {
        let ghost before = loader.tensors();
        let front = match load_front(loader) {
            Ok(front) => front,
            Err(message) => {
                return Err(message);
            },
        };
        proof {
            lemma_widths(256, 7);
            lemma_widths(128, 11);
        }
        let res0 = KokoroGeneratorResBlock::load(loader, "module.generator.noise_res.0", 256, 7);
        let res1 = KokoroGeneratorResBlock::load(loader, "module.generator.noise_res.1", 128, 11);
        let (b0, b1, b2) = load_triple(
            loader,
            (
                "module.generator.resblocks.0",
                "module.generator.resblocks.1",
                "module.generator.resblocks.2",
            ),
            256,
        );
        let (b3, b4, b5) = load_triple(
            loader,
            (
                "module.generator.resblocks.3",
                "module.generator.resblocks.4",
                "module.generator.resblocks.5",
            ),
            128,
        );
        let message = "invalid Kokoro weight-normalized convolution ".to_owned().concat(
            "module.generator.conv_post",
        );
        let conv_post = Conv::load(
            loader,
            "decoder",
            "module.generator.conv_post",
            thrice(message.as_str()),
            22,
            128,
            7,
            22,
        );
        proof {
            reveal(post_tensors);
            lemma_generator_tensors(before);
        }
        Ok(
            KokoroGenerator {
                source_weight: front.source_weight,
                source_bias: front.source_bias,
                coarse: GeneratorStage {
                    up: front.up0,
                    noise_conv: front.noise0,
                    noise_res: res0,
                    first: b0,
                    second: b1,
                    third: b2,
                    noise_shape: ConvShape {
                        input: 22,
                        output: 256,
                        kernel: 12,
                        stride: 6,
                        padding: 3,
                        dilation: 1,
                    },
                    pads: false,
                },
                fine: GeneratorStage {
                    up: front.up1,
                    noise_conv: front.noise1,
                    noise_res: res1,
                    first: b3,
                    second: b4,
                    third: b5,
                    noise_shape: ConvShape {
                        input: 22,
                        output: 128,
                        kernel: 1,
                        stride: 1,
                        padding: 0,
                        dilation: 1,
                    },
                    pads: true,
                },
                conv_post,
            },
        )
    }

    /// Generates the spectrum of `frames` latent rows. `source` names the
    /// transform of the excitation, magnitudes before phases, and `f0_len` is
    /// how many pitch values it was made of.
    pub fn synthesize(
        &self,
        plan: &mut Plan,
        latent: usize,
        f0_len: usize,
        source: usize,
        frames: usize,
        style: usize,
    ) -> (outcome: Result<usize, String>)
        requires
            old(plan).wf(),
            self.fits(*old(plan)),
            latent < old(plan).values().len(),
            source < old(plan).values().len(),
            style < old(plan).values().len(),
            0 < frames,
            frames * 7_680 + 128 <= u32::MAX,
            frames * 53_760 + 896 <= usize::MAX,
        ensures
            final(plan).wf(),
            ({
                let fault = generator_fault(
                    old(plan).sizes()[latent as int],
                    f0_len,
                    frames,
                    old(plan).sizes()[style as int],
                    old(plan).sizes()[source as int],
                );
                let v = old(plan).values();
                match outcome {
                    Err(message) => fault == Some(message@) && *final(plan) == *old(plan),
                    Ok(out) => {
                        &&& fault is None
                        &&& extends(*old(plan), *final(plan))
                        &&& out < final(plan).values().len()
                        &&& final(plan).sizes()[out as int] == 22 * (60 * frames + 1)
                        &&& final(plan).values()[out as int] == spectrum(
                            *self,
                            v,
                            v[latent as int],
                            v[source as int],
                            v[style as int],
                            frames as u32,
                        )
                    },
                }
            }),
    {
        if !(plan.size(latent) == frames * 512 && f0_len == frames && plan.size(style) == 128) {
            return Err("invalid Kokoro generator input".to_owned());
        }
        if plan.size(source) != (frames * 60 + 1) * 22 {
            return Err("invalid Kokoro source STFT".to_owned());
        }
        let ghost start = *plan;
        let t: u32 = frames as u32;
        let full: u32 = 60 * t + 1;
        proof {
            law_excitation_meets_the_main_branch(frames as int);
            lemma_countable(*self, frames as int);
        }
        let hidden: usize = run_transposed(plan, latent, t, 512);
        let first: usize = self.coarse.forward(
            plan,
            hidden,
            source,
            style,
            t,
            full,
            Ghost(start),
        );
        let second: usize = self.fine.forward(
            plan,
            first,
            source,
            style,
            10 * t,
            full,
            Ghost(start),
        );
        let activated: usize = run_leaky(plan, second, 128 * full, Scalar::Single(SLOPE_0_01));
        let post = ConvShape {
            input: 128,
            output: 22,
            kernel: 7,
            stride: 1,
            padding: 3,
            dilation: 1,
        };
        proof {
            lemma_post(post, full as int);
        }
        Ok(
            run_unfolded_conv(
                plan,
                activated,
                self.conv_post.weight,
                self.conv_post.bias,
                post,
                full,
                full,
            ),
        )
    }
}

proof fn lemma_post(shape: ConvShape, full: int)
    requires
        shape == post_shape(),
    ensures
        shape.output * shape.input * shape.kernel == 19_712,
        shape.input * full == 128 * full,
        shape.output * full == 22 * full,
        shape.input * shape.kernel == 896,
        full * (shape.input * shape.kernel) == full * 896,
{
    assert(22 * 128 * 7 == 19_712);
}

proof fn lemma_up_countable(up: ConvTranspose, frames: int, input: int, output: int, stride: int)
    requires
        0 < frames,
        (input == 512 && output == 256 && stride == 10) || (input == 256 && output == 128 && stride
            == 6),
        frames * 10 <= u32::MAX,
        frames * 2_560 <= usize::MAX,
        up.input == input,
        up.output == output,
        up.stride == stride,
    ensures
        up.countable(frames),
{
    if input == 512 {
        assert(up.output * up.input * 2 == 262_144);
        assert(frames * (2 * up.input) == frames * 1024);
        assert(frames * up.output == frames * 256);
        assert(frames * up.stride == frames * 10);
        assert(up.output * (frames * up.stride) == 2560 * frames);
    } else {
        assert(up.output * up.input * 2 == 65_536);
        assert(frames * (2 * up.input) == frames * 512);
        assert(frames * up.output == frames * 128);
        assert(frames * up.stride == frames * 6);
        assert(up.output * (frames * up.stride) == 768 * frames);
    }
}

/// Both stages count no further than numbers go.
proof fn lemma_countable(w: KokoroGenerator, frames: int)
    requires
        0 < frames,
        frames * 7_680 + 128 <= u32::MAX,
        frames * 53_760 + 896 <= usize::MAX,
        w.shaped(),
        w.coarse.noise_res.channels == 256,
        w.coarse.first.channels == 256,
        w.coarse.second.channels == 256,
        w.coarse.third.channels == 256,
        w.fine.noise_res.channels == 128,
        w.fine.first.channels == 128,
        w.fine.second.channels == 128,
        w.fine.third.channels == 128,
    ensures
        w.coarse.countable(frames, 60 * frames + 1),
        w.fine.countable(10 * frames, 60 * frames + 1),
        stage_frames(w.coarse, frames) == 10 * frames,
        stage_frames(w.fine, 10 * frames) == 60 * frames + 1,
        w.coarse.noise_shape.input * (60 * frames + 1) == 22 * (60 * frames + 1),
        w.fine.noise_shape.input * (60 * frames + 1) == 22 * (60 * frames + 1),
        w.coarse.up.input * frames == 512 * frames,
        w.coarse.up.output * (10 * frames) == 2560 * frames,
        w.fine.up.input * (10 * frames) == 2560 * frames,
        w.fine.up.output * (60 * frames + 1) == 128 * (60 * frames + 1),
{
    law_excitation_meets_the_main_branch(frames);
    let c = w.coarse.noise_shape;
    let f = w.fine.noise_shape;
    assert(c.input * c.kernel == 264);
    assert(f.input * f.kernel == 22);
    assert(10 * frames * (c.input * c.kernel) == 10 * frames * 264);
    assert((60 * frames + 1) * (f.input * f.kernel) == (60 * frames + 1) * 22);
    assert(stage_frames(w.coarse, frames) == 10 * frames);
    assert(stage_frames(w.fine, 10 * frames) == 60 * frames + 1);
    lemma_up_countable(w.coarse.up, frames, 512, 256, 10);
    lemma_up_countable(w.fine.up, 10 * frames, 256, 128, 6);
    assert(w.coarse.noise_res.countable(10 * frames));
    assert(w.coarse.first.countable(10 * frames));
    assert(w.coarse.second.countable(10 * frames));
    assert(w.coarse.third.countable(10 * frames));
    assert(w.fine.noise_res.countable(60 * frames + 1));
    assert(w.fine.first.countable(60 * frames + 1));
    assert(w.fine.second.countable(60 * frames + 1));
    assert(w.fine.third.countable(60 * frames + 1));
    assert(w.coarse.up.output * (10 * frames) == 2560 * frames);
    assert(w.fine.up.input * (10 * frames) == 2560 * frames);
    assert(w.fine.up.output * (60 * frames + 1) == 128 * (60 * frames + 1));
}

/// The tensors in front of the residual blocks are stored at their full size.
proof fn lemma_front_loaded(plan: Plan, base: int)
    requires
        stores(plan, base, front_tensors()),
    ensures
        front_tensors().len() == 12,
        base as usize == base,
        (base + 1) as usize == base + 1,
        holds(plan, base as usize, 9),
        holds(plan, (base + 1) as usize, 1),
        ConvTranspose::at(base + 2, 512, 256, 20, 10, 5).fits(plan),
        ConvTranspose::at(base + 5, 256, 128, 12, 6, 3).fits(plan),
        holds(plan, PlainConv::at(base + 8).weight, 67_584),
        holds(plan, PlainConv::at(base + 8).bias, 256),
        holds(plan, PlainConv::at(base + 10).weight, 2_816),
        holds(plan, PlainConv::at(base + 10).bias, 128),
{
    reveal(front_tensors);
    let u0 = "module.generator.ups.0"@;
    let u1 = "module.generator.ups.1"@;
    let n0 = "module.generator.noise_convs.0"@;
    let n1 = "module.generator.noise_convs.1"@;
    let t0 = seq![
        fixed(
            full_name("decoder"@, "module.generator.m_source.l_linear.weight"@),
            seq![1, 9],
            "invalid Kokoro generator source"@,
        ).before(1),
        fixed(
            full_name("decoder"@, "module.generator.m_source.l_linear.bias"@),
            seq![1],
            "invalid Kokoro generator source"@,
        ),
    ];
    let p1 = transpose_tensors(u0, 512, 256, 20);
    let p2 = transpose_tensors(u1, 256, 128, 12);
    let p3 = plain_tensors(n0, 22, 256, 12);
    let p4 = plain_tensors(n1, 22, 128, 1);
    let t1 = t0 + p1;
    let t2 = t1 + p2;
    let t3 = t2 + p3;
    lemma_stores_split(plan, base, t3, p4);
    lemma_stores_split(plan, base, t2, p3);
    lemma_stores_split(plan, base, t1, p2);
    lemma_stores_split(plan, base, t0, p1);
    lemma_stored2(plan, base, t0, 0, 1, 9);
    lemma_stored1(plan, base, t0, 1, 1);
    ConvTranspose::law_loaded_weights_fit(plan, base + 2, u0, 512, 256, 20, 10, 5);
    ConvTranspose::law_loaded_weights_fit(plan, base + 5, u1, 256, 128, 12, 6, 3);
    lemma_stored3(plan, base + 8, p3, 0, 256, 22, 12);
    lemma_stored1(plan, base + 8, p3, 1, 256);
    lemma_stored3(plan, base + 10, p4, 0, 128, 22, 1);
    lemma_stored1(plan, base + 10, p4, 1, 128);
}

/// The residual blocks of the first stage are stored at their full size.
proof fn lemma_coarse_loaded(plan: Plan, base: int)
    requires
        stores(plan, base, coarse_tensors()),
    ensures
        coarse_tensors().len() == 108,
        KokoroGeneratorResBlock::at(base, 256, 3).fits(plan),
        KokoroGeneratorResBlock::at(base + 36, 256, 7).fits(plan),
        KokoroGeneratorResBlock::at(base + 72, 256, 11).fits(plan),
{
    let a = "module.generator.resblocks.0"@;
    let b = "module.generator.resblocks.1"@;
    let c = "module.generator.resblocks.2"@;
    KokoroGeneratorResBlock::lemma_count(a, 256, 3);
    KokoroGeneratorResBlock::lemma_count(b, 256, 7);
    KokoroGeneratorResBlock::lemma_count(c, 256, 11);
    let x = res_tensors(a, 256, 3);
    let y = res_tensors(b, 256, 7);
    let z = res_tensors(c, 256, 11);
    lemma_stores_split(plan, base, x + y, z);
    lemma_stores_split(plan, base, x, y);
    lemma_widths(256, 3);
    lemma_widths(256, 7);
    lemma_widths(256, 11);
    KokoroGeneratorResBlock::law_loaded_weights_fit(plan, base, a, 256, 3);
    KokoroGeneratorResBlock::law_loaded_weights_fit(plan, base + 36, b, 256, 7);
    KokoroGeneratorResBlock::law_loaded_weights_fit(plan, base + 72, c, 256, 11);
}

/// The residual blocks of the second stage are stored at their full size.
proof fn lemma_fine_loaded(plan: Plan, base: int)
    requires
        stores(plan, base, fine_tensors()),
    ensures
        fine_tensors().len() == 108,
        KokoroGeneratorResBlock::at(base, 128, 3).fits(plan),
        KokoroGeneratorResBlock::at(base + 36, 128, 7).fits(plan),
        KokoroGeneratorResBlock::at(base + 72, 128, 11).fits(plan),
{
    let a = "module.generator.resblocks.3"@;
    let b = "module.generator.resblocks.4"@;
    let c = "module.generator.resblocks.5"@;
    KokoroGeneratorResBlock::lemma_count(a, 128, 3);
    KokoroGeneratorResBlock::lemma_count(b, 128, 7);
    KokoroGeneratorResBlock::lemma_count(c, 128, 11);
    let x = res_tensors(a, 128, 3);
    let y = res_tensors(b, 128, 7);
    let z = res_tensors(c, 128, 11);
    lemma_stores_split(plan, base, x + y, z);
    lemma_stores_split(plan, base, x, y);
    lemma_widths(128, 3);
    lemma_widths(128, 7);
    lemma_widths(128, 11);
    KokoroGeneratorResBlock::law_loaded_weights_fit(plan, base, a, 128, 3);
    KokoroGeneratorResBlock::law_loaded_weights_fit(plan, base + 36, b, 128, 7);
    KokoroGeneratorResBlock::law_loaded_weights_fit(plan, base + 72, c, 128, 11);
}

/// The residual blocks of the excitation are stored at their full size.
proof fn lemma_excitation_loaded(plan: Plan, base: int)
    requires
        stores(plan, base, excitation_tensors()),
    ensures
        excitation_tensors().len() == 72,
        KokoroGeneratorResBlock::at(base, 256, 7).fits(plan),
        KokoroGeneratorResBlock::at(base + 36, 128, 11).fits(plan),
{
    let a = "module.generator.noise_res.0"@;
    let b = "module.generator.noise_res.1"@;
    KokoroGeneratorResBlock::lemma_count(a, 256, 7);
    KokoroGeneratorResBlock::lemma_count(b, 128, 11);
    lemma_stores_split(plan, base, res_tensors(a, 256, 7), res_tensors(b, 128, 11));
    lemma_widths(256, 7);
    lemma_widths(128, 11);
    KokoroGeneratorResBlock::law_loaded_weights_fit(plan, base, a, 256, 7);
    KokoroGeneratorResBlock::law_loaded_weights_fit(plan, base + 36, b, 128, 11);
}

/// The last convolution is stored at its full size.
proof fn lemma_post_loaded(plan: Plan, base: int)
    requires
        stores(plan, base, post_tensors()),
    ensures
        holds(plan, Conv::at(base).weight, 19_712),
        holds(plan, Conv::at(base).bias, 22),
{
    reveal(post_tensors);
    Conv::law_loaded_weights_fit(
        plan,
        base,
        "decoder"@,
        "module.generator.conv_post"@,
        thrice_fixed(
            "invalid Kokoro weight-normalized convolution "@ + "module.generator.conv_post"@,
        ),
        22,
        128,
        7,
        22,
    );
}

/// How many tensors the parts have.
proof fn lemma_part_counts()
    ensures
        front_tensors().len() == 12,
        excitation_tensors().len() == 72,
        coarse_tensors().len() == 108,
        fine_tensors().len() == 108,
{
    reveal(front_tensors);
    KokoroGeneratorResBlock::lemma_count("module.generator.noise_res.0"@, 256, 7);
    KokoroGeneratorResBlock::lemma_count("module.generator.noise_res.1"@, 128, 11);
    KokoroGeneratorResBlock::lemma_count("module.generator.resblocks.0"@, 256, 3);
    KokoroGeneratorResBlock::lemma_count("module.generator.resblocks.1"@, 256, 7);
    KokoroGeneratorResBlock::lemma_count("module.generator.resblocks.2"@, 256, 11);
    KokoroGeneratorResBlock::lemma_count("module.generator.resblocks.3"@, 128, 3);
    KokoroGeneratorResBlock::lemma_count("module.generator.resblocks.4"@, 128, 7);
    KokoroGeneratorResBlock::lemma_count("module.generator.resblocks.5"@, 128, 11);
}

impl KokoroGenerator {
    /// Loaded weights exist at their full size.
    #[verifier::rlimit(80)]
    pub proof fn law_loaded_weights_fit(plan: Plan, base: int)
        requires
            stores(plan, base, generator_tensors()),
        ensures
            Self::at(base).fits(plan),
    {
        lemma_part_counts();
        let t0 = front_tensors();
        let p1 = excitation_tensors();
        let p2 = coarse_tensors();
        let p3 = fine_tensors();
        let p4 = post_tensors();
        let t1 = t0 + p1;
        let t2 = t1 + p2;
        let t3 = t2 + p3;
        lemma_stores_split(plan, base, t3, p4);
        lemma_stores_split(plan, base, t2, p3);
        lemma_stores_split(plan, base, t1, p2);
        lemma_stores_split(plan, base, t0, p1);
        lemma_front_loaded(plan, base);
        lemma_excitation_loaded(plan, base + 12);
        lemma_coarse_loaded(plan, base + 84);
        lemma_fine_loaded(plan, base + 192);
        lemma_post_loaded(plan, base + 300);
        let c = coarse_noise();
        let f = fine_noise();
        assert(c.output * c.input * c.kernel == 67_584) by (nonlinear_arith)
            requires
                c.output == 256,
                c.input == 22,
                c.kernel == 12,
        ;
        assert(f.output * f.input * f.kernel == 2_816) by (nonlinear_arith)
            requires
                f.output == 128,
                f.input == 22,
                f.kernel == 1,
        ;
    }
}

} // verus!
