//! Pitch and noise of every acoustic frame.
use vstd::prelude::*;
use vstd::string::*;
use crate::device::{Plan, Term, extends, holds};
use crate::device::compound::{ConvShape, conv1d, run_conv1d, run_transposed};
use crate::device::value::transpose_f16;
use crate::kokoro::adain::{
    KokoroAdaInResBlock, block_rows, block_tensors, lemma_block_rows_at,
};
use crate::kokoro::checkpoint::{fixed, fixed_complaint, full_name, to_full_name};
use crate::kokoro::lstm::{KokoroBiLstm, lstm_output, lstm_tensors};
use crate::weights::{Loader, Tensor, lemma_stored1, lemma_stored3, lemma_stores_split, stores};

verus! {

/// Three residual blocks and a projection on one channel, as buffers.
#[derive(Clone, Copy, Debug, PartialEq, Eq, Structural)]
pub struct Branch {
    pub first: KokoroAdaInResBlock,
    pub second: KokoroAdaInResBlock,
    pub third: KokoroAdaInResBlock,
}

/// A projection on one channel, as buffers.
#[derive(Clone, Copy, Debug, PartialEq, Eq, Structural)]
pub struct Projection {
    pub weight: usize,
    pub bias: usize,
}

/// The model of pitch and noise, as buffers.
#[derive(Clone, Copy, Debug, PartialEq, Eq, Structural)]
pub struct KokoroF0Noise {
    pub shared: KokoroBiLstm,
    pub f0_blocks: Branch,
    pub noise_blocks: Branch,
    pub f0_projection: Projection,
    pub noise_projection: Projection,
}

/// The tensors of a branch.
pub open spec fn branch_tensors(prefix: Seq<char>) -> Seq<Tensor> {
    block_tensors("predictor"@, prefix + ".0"@, 512, 512, false) + block_tensors(
        "predictor"@,
        prefix + ".1"@,
        512,
        256,
        true,
    ) + block_tensors("predictor"@, prefix + ".2"@, 256, 256, false)
}

/// The tensors of a projection.
pub open spec fn projection_tensors(prefix: Seq<char>) -> Seq<Tensor> {
    let message = "invalid Kokoro projection "@ + prefix;
    seq![
        fixed(full_name("predictor"@, prefix + ".weight"@), seq![1, 256, 1], message).before(1),
        fixed(full_name("predictor"@, prefix + ".bias"@), seq![1], message),
    ]
}

/// The tensors of the model.
pub open spec fn f0_tensors() -> Seq<Tensor> {
    lstm_tensors("predictor"@, "module.shared"@, 640, 256) + branch_tensors("module.F0"@)
        + branch_tensors("module.N"@) + projection_tensors("module.F0_proj"@) + projection_tensors(
        "module.N_proj"@,
    )
}

impl Branch {
    /// The branch whose first tensor is buffer `base`.
    pub open spec fn at(base: int) -> Self {
        Branch {
            first: KokoroAdaInResBlock::at(base, 512, 512, false),
            second: KokoroAdaInResBlock::at(base + 10, 512, 256, true),
            third: KokoroAdaInResBlock::at(base + 25, 256, 256, false),
        }
    }

    /// The weights exist at their full size.
    pub open spec fn fits(self, plan: Plan) -> bool {
        &&& self.first.fits(plan)
        &&& self.second.fits(plan)
        &&& self.third.fits(plan)
        &&& (self.first.input, self.first.output, self.first.upsample) == (512u32, 512u32, false)
        &&& (self.second.input, self.second.output, self.second.upsample) == (512u32, 256u32, true)
        &&& (self.third.input, self.third.output, self.third.upsample) == (256u32, 256u32, false)
    }

    /// Requires the tensors of a branch.
    fn load(loader: &mut Loader, prefix: &str) -> (branch: Self)
        requires
            old(loader).wf(),
        ensures
            final(loader).wf(),
            branch == Self::at(old(loader).tensors().len() as int),
            final(loader).tensors() == old(loader).tensors() + branch_tensors(prefix@),
            final(loader).tensors().len() == old(loader).tensors().len() + 35,
    {
        let ghost before = loader.tensors();
        let first = KokoroAdaInResBlock::load(
            loader,
            "predictor",
            prefix.to_owned().concat(".0").as_str(),
            512,
            512,
            false,
        );
        let second = KokoroAdaInResBlock::load(
            loader,
            "predictor",
            prefix.to_owned().concat(".1").as_str(),
            512,
            256,
            true,
        );
        let third = KokoroAdaInResBlock::load(
            loader,
            "predictor",
            prefix.to_owned().concat(".2").as_str(),
            256,
            256,
            false,
        );
        assert(loader.tensors() =~= before + branch_tensors(prefix@));
        Branch { first, second, third }
    }
}

impl Projection {
    /// The projection whose first tensor is buffer `base`.
    pub open spec fn at(base: int) -> Self {
        Projection { weight: base as usize, bias: (base + 1) as usize }
    }

    /// The weights exist at their full size.
    pub open spec fn fits(self, plan: Plan) -> bool {
        &&& holds(plan, self.weight, 256)
        &&& holds(plan, self.bias, 1)
    }

    /// Requires the tensors of a projection.
    fn load(loader: &mut Loader, prefix: &str) -> (projection: Self)
        requires
            old(loader).wf(),
        ensures
            final(loader).wf(),
            projection == Self::at(old(loader).tensors().len() as int),
            final(loader).tensors() == old(loader).tensors() + projection_tensors(prefix@),
            final(loader).tensors().len() == old(loader).tensors().len() + 2,
    {
        let ghost before = loader.tensors();
        let message = "invalid Kokoro projection ".to_owned().concat(prefix);
        let weight: usize = loader.cube(
            to_full_name("predictor", prefix.to_owned().concat(".weight").as_str()),
            1,
            256,
            1,
            fixed_complaint(message.as_str()).before(1),
        );
        let bias: usize = loader.vector(
            to_full_name("predictor", prefix.to_owned().concat(".bias").as_str()),
            1,
            fixed_complaint(message.as_str()),
        );
        assert(loader.tensors() =~= before + projection_tensors(prefix@));
        Projection { weight, bias }
    }
}

/// The projection as a convolution.
pub open spec fn projecting() -> ConvShape {
    ConvShape { input: 256, output: 1, kernel: 1, stride: 1, padding: 0, dilation: 1 }
}

/// One value per half frame, from shared rows.
pub open spec fn branch_output(
    w: Branch,
    projection: Projection,
    v: Seq<Term>,
    shared: Term,
    style: Term,
    frames: u32,
) -> Term {
    let twice = (2 * frames) as u32;
    let first = block_rows(w.first, v, shared, style, frames);
    let second = block_rows(w.second, v, first, style, frames);
    let third = block_rows(w.third, v, second, style, twice);
    conv1d(
        transpose_f16(third, twice, 256),
        v[projection.weight as int],
        v[projection.bias as int],
        projecting(),
        twice,
        twice,
    )
}

/// Runs a branch. The result names a fresh buffer.
fn run_branch(
    plan: &mut Plan,
    blocks: &Branch,
    projection: &Projection,
    shared: usize,
    style: usize,
    frames: usize,
    Ghost(start): Ghost<Plan>,
) -> (out: usize)
    requires
        old(plan).wf(),
        extends(start, *old(plan)),
        blocks.fits(start),
        projection.fits(start),
        frames * 1024 <= u32::MAX,
        frames * 1024 <= usize::MAX,
        shared < old(plan).values().len(),
        style < old(plan).values().len(),
        old(plan).sizes()[shared as int] == frames * 512,
        old(plan).sizes()[style as int] == 128,
    ensures
        final(plan).wf(),
        extends(*old(plan), *final(plan)),
        out < final(plan).values().len(),
        final(plan).sizes()[out as int] == 2 * frames,
        final(plan).values()[out as int] == branch_output(
            *blocks,
            *projection,
            start.values(),
            old(plan).values()[shared as int],
            old(plan).values()[style as int],
            frames as u32,
        ),
{
    let ghost p0 = *plan;
    let first: usize = match blocks.first.forward(plan, shared, frames, style) {
        Ok(out) => out,
        Err(_) => 0,
    };
    let ghost p1 = *plan;
    proof {
        lemma_block_rows_at(
            blocks.first,
            start,
            p0,
            p0.values()[shared as int],
            p0.values()[style as int],
            frames as u32,
        );
    }
    let second: usize = match blocks.second.forward(plan, first, frames, style) {
        Ok(out) => out,
        Err(_) => 0,
    };
    let ghost p2 = *plan;
    proof {
        lemma_block_rows_at(
            blocks.second,
            start,
            p1,
            p1.values()[first as int],
            p1.values()[style as int],
            frames as u32,
        );
    }
    let third: usize = match blocks.third.forward(plan, second, frames * 2, style) {
        Ok(out) => out,
        Err(_) => 0,
    };
    let twice: u32 = (frames * 2) as u32;
    proof {
        lemma_block_rows_at(
            blocks.third,
            start,
            p2,
            p2.values()[second as int],
            p2.values()[style as int],
            twice,
        );
    }
    let channels: usize = run_transposed(plan, third, twice, 256);
    let shape = ConvShape {
        input: 256,
        output: 1,
        kernel: 1,
        stride: 1,
        padding: 0,
        dilation: 1,
    };
    assert(shape.output * twice == twice) by (nonlinear_arith)
        requires
            shape.output == 1,
    ;
    run_conv1d(plan, channels, projection.weight, projection.bias, shape, twice, twice)
}

/// The buffers of pitch and noise, two values per acoustic frame each.
#[derive(Clone, Copy, Debug, PartialEq, Eq, Structural)]
pub struct PitchAndNoise {
    pub f0: usize,
    pub noise: usize,
}

/// Why pitch and noise cannot be predicted, if they cannot.
pub open spec fn f0_fault(aligned_len: usize, frames: usize, style_len: usize) -> Option<Seq<char>> {
    if aligned_len != frames * 640 || style_len != 128 {
        Some("invalid Kokoro F0/noise input"@)
    } else if frames == 0 {
        Some("invalid Kokoro BiLSTM input geometry"@)
    } else {
        None
    }
}

/// Pitch and noise of aligned rows in a style.
pub open spec fn pitch_and_noise(
    w: KokoroF0Noise,
    plan: Plan,
    aligned: Term,
    style: Term,
    frames: int,
) -> (Term, Term) {
    let v = plan.values();
    let shared = lstm_output(w.shared, plan, aligned, frames);
    (
        branch_output(w.f0_blocks, w.f0_projection, v, shared, style, frames as u32),
        branch_output(w.noise_blocks, w.noise_projection, v, shared, style, frames as u32),
    )
}

impl KokoroF0Noise {
    /// The model whose first tensor is buffer `base`.
    pub open spec fn at(base: int) -> Self {
        KokoroF0Noise {
            shared: KokoroBiLstm::at(base, 640, 256),
            f0_blocks: Branch::at(base + 8),
            noise_blocks: Branch::at(base + 43),
            f0_projection: Projection::at(base + 78),
            noise_projection: Projection::at(base + 80),
        }
    }

    /// The weights exist at their full size.
    pub open spec fn fits(self, plan: Plan) -> bool {
        &&& self.shared.fits(plan)
        &&& self.shared.input_size == 640
        &&& self.shared.hidden_size == 256
        &&& self.f0_blocks.fits(plan)
        &&& self.noise_blocks.fits(plan)
        &&& self.f0_projection.fits(plan)
        &&& self.noise_projection.fits(plan)
    }

    /// Requires the tensors of the model.
    pub fn load(loader: &mut Loader) -> (model: Self)
        requires
            old(loader).wf(),
        ensures
            final(loader).wf(),
            model == Self::at(old(loader).tensors().len() as int),
            final(loader).tensors() == old(loader).tensors() + f0_tensors(),
            final(loader).tensors().len() == old(loader).tensors().len() + 82,
    {
        let ghost before = loader.tensors();
        let shared = KokoroBiLstm::load(loader, "predictor", "module.shared", 640, 256);
        let f0_blocks = Branch::load(loader, "module.F0");
        let noise_blocks = Branch::load(loader, "module.N");
        let f0_projection = Projection::load(loader, "module.F0_proj");
        let noise_projection = Projection::load(loader, "module.N_proj");
        assert(loader.tensors() =~= before + f0_tensors());
        KokoroF0Noise { shared, f0_blocks, noise_blocks, f0_projection, noise_projection }
    }

    /// Predicts pitch and noise from the `frames` aligned rows.
    pub fn predict(&self, plan: &mut Plan, aligned: usize, frames: usize, style: usize) -> (outcome:
        Result<PitchAndNoise, String>)
        requires
            old(plan).wf(),
            self.fits(*old(plan)),
            aligned < old(plan).values().len(),
            style < old(plan).values().len(),
            frames * 1024 <= u32::MAX,
            frames * 1024 <= usize::MAX,
        ensures
            final(plan).wf(),
            ({
                let fault = f0_fault(
                    old(plan).sizes()[aligned as int],
                    frames,
                    old(plan).sizes()[style as int],
                );
                let shared = lstm_output(
                    self.shared,
                    *old(plan),
                    old(plan).values()[aligned as int],
                    frames as int,
                );
                match outcome {
                    Err(message) => fault == Some(message@) && *final(plan) == *old(plan),
                    Ok(out) => {
                        &&& fault is None
                        &&& extends(*old(plan), *final(plan))
                        &&& out.f0 < final(plan).values().len()
                        &&& out.noise < final(plan).values().len()
                        &&& final(plan).sizes()[out.f0 as int] == 2 * frames
                        &&& final(plan).sizes()[out.noise as int] == 2 * frames
                        &&& final(plan).values()[out.f0 as int] == branch_output(
                            self.f0_blocks,
                            self.f0_projection,
                            old(plan).values(),
                            shared,
                            old(plan).values()[style as int],
                            frames as u32,
                        )
                        &&& final(plan).values()[out.noise as int] == branch_output(
                            self.noise_blocks,
                            self.noise_projection,
                            old(plan).values(),
                            shared,
                            old(plan).values()[style as int],
                            frames as u32,
                        )
                        &&& (final(plan).values()[out.f0 as int], final(plan).values()[out.noise as int])
                            == pitch_and_noise(
                            *self,
                            *old(plan),
                            old(plan).values()[aligned as int],
                            old(plan).values()[style as int],
                            frames as int,
                        )
                    },
                }
            }),
    {
        if plan.size(aligned) != frames * 640 || plan.size(style) != 128 {
            return Err("invalid Kokoro F0/noise input".to_owned());
        }
        let ghost start = *plan;
        let shared: usize = match self.shared.forward(plan, aligned, frames) {
            Ok(shared) => shared,
            Err(message) => {
                return Err(message);
            },
        };
        let f0: usize = run_branch(
            plan,
            &self.f0_blocks,
            &self.f0_projection,
            shared,
            style,
            frames,
            Ghost(start),
        );
        let noise: usize = run_branch(
            plan,
            &self.noise_blocks,
            &self.noise_projection,
            shared,
            style,
            frames,
            Ghost(start),
        );
        Ok(PitchAndNoise { f0, noise })
    }
}

impl Branch {
    /// Loaded weights exist at their full size.
    pub proof fn law_loaded_weights_fit(plan: Plan, base: int, prefix: Seq<char>)
        requires
            stores(plan, base, branch_tensors(prefix)),
        ensures
            Self::at(base).fits(plan),
    {
        let t0 = block_tensors("predictor"@, prefix + ".0"@, 512, 512, false);
        let p1 = block_tensors("predictor"@, prefix + ".1"@, 512, 256, true);
        let t1 = t0 + p1;
        let p2 = block_tensors("predictor"@, prefix + ".2"@, 256, 256, false);
        let t2 = t1 + p2;
        lemma_stores_split(plan, base, t1, p2);
        lemma_stores_split(plan, base, t0, p1);
        KokoroAdaInResBlock::law_loaded_weights_fit(plan, base, "predictor"@, prefix + ".0"@, 512, 512, false);
        KokoroAdaInResBlock::law_loaded_weights_fit(plan, base + 10, "predictor"@, prefix + ".1"@, 512, 256, true);
        KokoroAdaInResBlock::law_loaded_weights_fit(plan, base + 25, "predictor"@, prefix + ".2"@, 256, 256, false);
    }
}

impl Projection {
    /// Loaded weights exist at their full size.
    proof fn lemma_loaded(plan: Plan, base: int, prefix: Seq<char>)
        requires
            stores(plan, base, projection_tensors(prefix)),
        ensures
            Self::at(base).fits(plan),
    {
        let tensors = projection_tensors(prefix);
        lemma_stored3(plan, base, tensors, 0, 1, 256, 1);
        lemma_stored1(plan, base, tensors, 1, 1);
    }
}

impl KokoroF0Noise {
    /// Loaded weights exist at their full size.
    pub proof fn law_loaded_weights_fit(plan: Plan, base: int)
        requires
            stores(plan, base, f0_tensors()),
        ensures
            Self::at(base).fits(plan),
    {
        let t0 = lstm_tensors("predictor"@, "module.shared"@, 640, 256);
        let p1 = branch_tensors("module.F0"@);
        let t1 = t0 + p1;
        let p2 = branch_tensors("module.N"@);
        let t2 = t1 + p2;
        let p3 = projection_tensors("module.F0_proj"@);
        let t3 = t2 + p3;
        let p4 = projection_tensors("module.N_proj"@);
        let t4 = t3 + p4;
        lemma_stores_split(plan, base, t3, p4);
        lemma_stores_split(plan, base, t2, p3);
        lemma_stores_split(plan, base, t1, p2);
        lemma_stores_split(plan, base, t0, p1);
        KokoroBiLstm::law_loaded_weights_fit(plan, base, "predictor"@, "module.shared"@, 640, 256);
        Branch::law_loaded_weights_fit(plan, base + 8, "module.F0"@);
        Branch::law_loaded_weights_fit(plan, base + 43, "module.N"@);
        Projection::lemma_loaded(plan, base + 78, "module.F0_proj"@);
        Projection::lemma_loaded(plan, base + 80, "module.N_proj"@);
    }
}

} // verus!
