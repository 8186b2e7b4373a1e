//! The diffusion head: one prediction of a velocity.
use vstd::prelude::*;
use vstd::string::*;
use crate::device::{Plan, Scalar, Term, extends, holds};
use crate::device::value::{
    add_bf16, copy_bf16_to_f32, copy_from, gated_residual_bf16_batched, gemv_bf16, join_rows,
    matmul_bf16, modulate_bf16_batched, ones_bf16, rms_norm_f32in_bf16, silu_act_bf16, silu_bf16,
};
use crate::text::{decimal, to_decimal};
use crate::vibevoice::config::VibeVoiceConfig;
use crate::weights::{
    Complaint, Loader, Tensor, expected, lemma_stored1, lemma_stored2, lemma_stores_split, stores,
};

verus! {

/// A layer of the head, as buffers.
#[derive(Clone, Copy, Debug, PartialEq, Eq, Structural)]
pub struct DiffusionLayer {
    pub norm: usize,
    pub modulation: usize,
    pub gate: usize,
    pub up: usize,
    pub down: usize,
}

/// The head, as buffers.
#[derive(Debug)]
pub struct VibeVoiceDiffusionHead {
    pub layers: Vec<DiffusionLayer>,
    pub noisy_projection: usize,
    pub condition_projection: usize,
    pub timestep_in: usize,
    pub timestep_out: usize,
    pub final_modulation: usize,
    pub final_projection: usize,
    pub hidden: u32,
    pub intermediate: u32,
    pub latent: u32,
    /// What keeps normalisation from dividing by zero.
    pub norm_eps: Scalar,
}

/// A tensor of the head.
pub open spec fn head_tensor(name: Seq<char>, shape: Seq<usize>) -> Tensor {
    expected("model.prediction_head."@ + name, shape)
}

/// The tensors of layer `i`.
pub open spec fn layer_tensors(i: nat, hidden: usize, intermediate: usize) -> Seq<Tensor> {
    let prefix = "layers."@ + decimal(i);
    seq![
        head_tensor(prefix + ".norm.weight"@, seq![hidden]),
        head_tensor(
            prefix + ".adaLN_modulation.1.weight"@,
            seq![(hidden * 3) as usize, hidden],
        ),
        head_tensor(prefix + ".ffn.gate_proj.weight"@, seq![intermediate, hidden]),
        head_tensor(prefix + ".ffn.up_proj.weight"@, seq![intermediate, hidden]),
        head_tensor(prefix + ".ffn.down_proj.weight"@, seq![hidden, intermediate]),
    ]
}

/// The tensors of the first `n` layers.
pub open spec fn layers_tensors(n: nat, hidden: usize, intermediate: usize) -> Seq<Tensor>
    decreases n,
{
    if n == 0 {
        Seq::empty()
    } else {
        layers_tensors((n - 1) as nat, hidden, intermediate) + layer_tensors(
            (n - 1) as nat,
            hidden,
            intermediate,
        )
    }
}

/// The tensors outside the layers.
pub open spec fn frame_tensors(hidden: usize, latent: usize) -> Seq<Tensor> {
    seq![
        head_tensor("noisy_images_proj.weight"@, seq![hidden, latent]),
        head_tensor("cond_proj.weight"@, seq![hidden, hidden]),
        head_tensor("t_embedder.mlp.0.weight"@, seq![hidden, 256]),
        head_tensor("t_embedder.mlp.2.weight"@, seq![hidden, hidden]),
        head_tensor(
            "final_layer.adaLN_modulation.1.weight"@,
            seq![(hidden * 2) as usize, hidden],
        ),
        head_tensor("final_layer.linear.weight"@, seq![latent, hidden]),
    ]
}

fn head_vector(loader: &mut Loader, name: &str, a: usize) -> (buffer: usize)
    requires
        old(loader).wf(),
    ensures
        final(loader).wf(),
        buffer == old(loader).tensors().len(),
        final(loader).tensors() == old(loader).tensors().push(head_tensor(name@, seq![a])),
{
    loader.vector("model.prediction_head.".to_owned().concat(name), a, Complaint::expected())
}

fn head_matrix(loader: &mut Loader, name: &str, a: usize, b: usize) -> (buffer: usize)
    requires
        old(loader).wf(),
        a * b <= usize::MAX,
    ensures
        final(loader).wf(),
        buffer == old(loader).tensors().len(),
        final(loader).tensors() == old(loader).tensors().push(head_tensor(name@, seq![a, b])),
{
    loader.matrix(
        "model.prediction_head.".to_owned().concat(name),
        a,
        b,
        Complaint::expected(),
    )
}

impl DiffusionLayer {
    /// The layer whose first tensor is buffer `base`.
    pub open spec fn at(base: int) -> Self {
        DiffusionLayer {
            norm: base as usize,
            modulation: (base + 1) as usize,
            gate: (base + 2) as usize,
            up: (base + 3) as usize,
            down: (base + 4) as usize,
        }
    }

    /// The weights exist at their full size.
    pub open spec fn fits(self, plan: Plan, hidden: int, intermediate: int) -> bool {
        &&& holds(plan, self.norm, hidden)
        &&& holds(plan, self.modulation, (3 * hidden) * hidden)
        &&& holds(plan, self.gate, intermediate * hidden)
        &&& holds(plan, self.up, intermediate * hidden)
        &&& holds(plan, self.down, hidden * intermediate)
    }

    /// Requires the tensors of layer `i`.
    fn load(loader: &mut Loader, i: u64, hidden: usize, intermediate: usize) -> (layer: Self)
        requires
            old(loader).wf(),
            hidden * 3 <= usize::MAX,
            (hidden * 3) * hidden <= usize::MAX,
            intermediate * hidden <= usize::MAX,
            hidden * intermediate <= usize::MAX,
        ensures
            final(loader).wf(),
            layer == Self::at(old(loader).tensors().len() as int),
            final(loader).tensors() == old(loader).tensors() + layer_tensors(
                i as nat,
                hidden,
                intermediate,
            ),
            final(loader).tensors().len() == old(loader).tensors().len() + 5,
    {
        let ghost before = loader.tensors();
        let prefix = "layers.".to_owned().concat(&to_decimal(i));
        let norm: usize = head_vector(loader, prefix.clone().concat(".norm.weight").as_str(), hidden);
        let modulation: usize = head_matrix(
            loader,
            prefix.clone().concat(".adaLN_modulation.1.weight").as_str(),
            hidden * 3,
            hidden,
        );
        let gate: usize = head_matrix(
            loader,
            prefix.clone().concat(".ffn.gate_proj.weight").as_str(),
            intermediate,
            hidden,
        );
        let up: usize = head_matrix(
            loader,
            prefix.clone().concat(".ffn.up_proj.weight").as_str(),
            intermediate,
            hidden,
        );
        let down: usize = head_matrix(
            loader,
            prefix.clone().concat(".ffn.down_proj.weight").as_str(),
            hidden,
            intermediate,
        );
        assert(loader.tensors() =~= before + layer_tensors(i as nat, hidden, intermediate));
        DiffusionLayer { norm, modulation, gate, up, down }
    }
}

/// The head's weights can be counted.
pub open spec fn head_widths_fit(hidden: usize, intermediate: usize, latent: usize) -> bool {
    &&& 3 * hidden <= u32::MAX
    &&& intermediate <= u32::MAX
    &&& latent <= u32::MAX
    &&& hidden * 3 <= usize::MAX
    &&& hidden * 256 <= usize::MAX
    &&& (hidden * 3) * hidden <= usize::MAX
    &&& intermediate * hidden <= usize::MAX
    &&& latent * hidden <= usize::MAX
}

impl VibeVoiceDiffusionHead {
    /// The layers stand one after another from buffer `base` on, and the rest
    /// of the head behind them.
    pub open spec fn is_at(self, base: int, hidden: usize, intermediate: usize, latent: usize) -> bool {
        let rest = base + 5 * self.layers@.len();
        &&& forall|i: int|
            0 <= i < self.layers@.len() ==> #[trigger] self.layers@[i] == DiffusionLayer::at(
                base + 5 * i,
            )
        &&& self.noisy_projection == rest
        &&& self.condition_projection == rest + 1
        &&& self.timestep_in == rest + 2
        &&& self.timestep_out == rest + 3
        &&& self.final_modulation == rest + 4
        &&& self.final_projection == rest + 5
        &&& self.hidden == hidden
        &&& self.intermediate == intermediate
        &&& self.latent == latent
    }

    /// Requires the tensors of the head. The inner width is the hidden width
    /// times the ratio that the configuration gives, rounded down.
    pub fn load(loader: &mut Loader, config: &VibeVoiceConfig, intermediate: usize) -> (head: Self)
        requires
            old(loader).wf(),
            head_widths_fit(
                config.diffusion_head_config.hidden_size,
                intermediate,
                config.diffusion_head_config.latent_size,
            ),
        ensures
            final(loader).wf(),
            head.layers@.len() == config.diffusion_head_config.head_layers,
            head.is_at(
                old(loader).tensors().len() as int,
                config.diffusion_head_config.hidden_size,
                intermediate,
                config.diffusion_head_config.latent_size,
            ),
            head.norm_eps == Scalar::Double(config.diffusion_head_config.rms_norm_eps),
            final(loader).tensors() == old(loader).tensors() + layers_tensors(
                config.diffusion_head_config.head_layers as nat,
                config.diffusion_head_config.hidden_size,
                intermediate,
            ) + frame_tensors(
                config.diffusion_head_config.hidden_size,
                config.diffusion_head_config.latent_size,
            ),
    {
        let c = &config.diffusion_head_config;
        let hidden: usize = c.hidden_size;
        let latent: usize = c.latent_size;
        let ghost before = loader.tensors();
        let ghost base = before.len() as int;
        proof {
            assert(intermediate * hidden == hidden * intermediate) by (nonlinear_arith);
            assert(latent * hidden == hidden * latent) by (nonlinear_arith);
            assert(hidden * hidden <= (hidden * 3) * hidden) by (nonlinear_arith)
                requires
                    hidden >= 0,
            ;
            assert((hidden * 2) * hidden <= (hidden * 3) * hidden) by (nonlinear_arith)
                requires
                    hidden >= 0,
            ;
            assert(before + layers_tensors(0, hidden, intermediate) =~= before);
        }
        let mut layers: Vec<DiffusionLayer> = Vec::new();
        for i in 0..c.head_layers
            invariant
                loader.wf(),
                hidden * 3 <= usize::MAX,
                (hidden * 3) * hidden <= usize::MAX,
                intermediate * hidden <= usize::MAX,
                hidden * intermediate <= usize::MAX,
                base == before.len(),
                layers@.len() == i,
                loader.tensors().len() == base + 5 * i,
                loader.tensors() == before + layers_tensors(i as nat, hidden, intermediate),
                forall|j: int|
                    0 <= j < i ==> #[trigger] layers@[j] == DiffusionLayer::at(base + 5 * j),
        {
            let layer = DiffusionLayer::load(loader, i as u64, hidden, intermediate);
            layers.push(layer);
            proof {
                assert(loader.tensors() =~= before + layers_tensors(
                    (i + 1) as nat,
                    hidden,
                    intermediate,
                ));
            }
        }
        let ghost middle = loader.tensors();
        let noisy_projection: usize = head_matrix(loader, "noisy_images_proj.weight", hidden, latent);
        let condition_projection: usize = head_matrix(loader, "cond_proj.weight", hidden, hidden);
        let timestep_in: usize = head_matrix(loader, "t_embedder.mlp.0.weight", hidden, 256);
        let timestep_out: usize = head_matrix(loader, "t_embedder.mlp.2.weight", hidden, hidden);
        let final_modulation: usize = head_matrix(
            loader,
            "final_layer.adaLN_modulation.1.weight",
            hidden * 2,
            hidden,
        );
        let final_projection: usize = head_matrix(
            loader,
            "final_layer.linear.weight",
            latent,
            hidden,
        );
        assert(loader.tensors() =~= middle + frame_tensors(hidden, latent));
        VibeVoiceDiffusionHead {
            layers,
            noisy_projection,
            condition_projection,
            timestep_in,
            timestep_out,
            final_modulation,
            final_projection,
            hidden: hidden as u32,
            intermediate: intermediate as u32,
            latent: latent as u32,
            norm_eps: Scalar::Double(c.rms_norm_eps),
        }
    }

    /// The weights exist at their full size.
    pub open spec fn fits(self, plan: Plan) -> bool {
        let h = self.hidden as int;
        &&& forall|i: int|
            0 <= i < self.layers@.len() ==> (#[trigger] self.layers@[i]).fits(
                plan,
                h,
                self.intermediate as int,
            )
        &&& holds(plan, self.noisy_projection, h * self.latent)
        &&& holds(plan, self.condition_projection, h * h)
        &&& holds(plan, self.timestep_in, h * 256)
        &&& holds(plan, self.timestep_out, h * h)
        &&& holds(plan, self.final_modulation, (2 * h) * h)
        &&& holds(plan, self.final_projection, self.latent * h)
    }
}

/// A map of rows without a bias; a single row has a kernel of its own.
pub open spec fn rows_map(x: Term, weight: Term, rows: u32, n: u32, k: u32) -> Term {
    if rows == 1 {
        gemv_bf16(x, weight, n, k)
    } else {
        matmul_bf16(x, weight, rows, n, k)
    }
}

/// Runs a map of rows into a given buffer.
fn run_rows_map(plan: &mut Plan, x: usize, weight: usize, out: usize, rows: u32, n: u32, k: u32)
    requires
        old(plan).wf(),
        rows > 0,
        holds(*old(plan), x, rows * k),
        holds(*old(plan), weight, n * k),
        holds(*old(plan), out, rows * n),
    ensures
        final(plan).wf(),
        final(plan).sizes() == old(plan).sizes(),
        final(plan).values() == old(plan).values().update(
            out as int,
            rows_map(
                old(plan).values()[x as int],
                old(plan).values()[weight as int],
                rows,
                n,
                k,
            ),
        ),
{
    if rows == 1 {
        assert(rows * k == k && rows * n == n) by (nonlinear_arith)
            requires
                rows == 1,
        ;
        plan.gemv_bf16(x, weight, out, n, k);
    } else {
        plan.matmul_bf16(x, weight, out, rows, n, k);
    }
}

/// What every layer is modulated by: the condition and the time, added and
/// activated.
pub open spec fn guidance(w: VibeVoiceDiffusionHead, v: Seq<Term>, condition: Term, time: Term, rows: u32) -> Term {
    let h = w.hidden;
    let n = (rows * h) as u32;
    let inner = silu_act_bf16(rows_map(time, v[w.timestep_in as int], rows, h, 256), n);
    silu_act_bf16(
        add_bf16(
            rows_map(condition, v[w.condition_projection as int], rows, h, h),
            rows_map(inner, v[w.timestep_out as int], rows, h, h),
            n,
        ),
        n,
    )
}

/// Rows normalised by way of single precision.
pub open spec fn normed(x: Term, weight: Term, rows: u32, h: u32, eps: Scalar) -> Term {
    rms_norm_f32in_bf16(copy_bf16_to_f32(x, (rows * h) as u32), weight, rows, h, eps)
}

/// The rows after a layer.
#[verifier::opaque]
pub open spec fn layer_output(
    layer: DiffusionLayer,
    v: Seq<Term>,
    x: Term,
    guide: Term,
    rows: u32,
    h: u32,
    inner: u32,
    eps: Scalar,
) -> Term {
    let modulation = rows_map(guide, v[layer.modulation as int], rows, (3 * h) as u32, h);
    let modulated = modulate_bf16_batched(
        normed(x, v[layer.norm as int], rows, h, eps),
        modulation,
        rows,
        h,
        3,
    );
    let active = silu_bf16(
        rows_map(modulated, v[layer.gate as int], rows, inner, h),
        rows_map(modulated, v[layer.up as int], rows, inner, h),
        (rows * inner) as u32,
    );
    gated_residual_bf16_batched(
        x,
        modulation,
        rows_map(active, v[layer.down as int], rows, h, inner),
        rows,
        h,
    )
}

/// The rows after the first `n` layers.
pub open spec fn layers_output(
    w: VibeVoiceDiffusionHead,
    v: Seq<Term>,
    x: Term,
    guide: Term,
    rows: u32,
    n: nat,
) -> Term
    decreases n,
{
    if n == 0 {
        x
    } else {
        layer_output(
            w.layers@[n - 1],
            v,
            layers_output(w, v, x, guide, rows, (n - 1) as nat),
            guide,
            rows,
            w.hidden,
            w.intermediate,
            w.norm_eps,
        )
    }
}

/// The velocities that the head predicts.
pub open spec fn predicted(
    w: VibeVoiceDiffusionHead,
    v: Seq<Term>,
    noisy: Term,
    time: Term,
    condition: Term,
    rows: u32,
) -> Term {
    let h = w.hidden;
    let guide = guidance(w, v, condition, time, rows);
    let x = layers_output(
        w,
        v,
        rows_map(noisy, v[w.noisy_projection as int], rows, h, w.latent),
        guide,
        rows,
        w.layers@.len(),
    );
    let modulation = rows_map(guide, v[w.final_modulation as int], rows, (2 * h) as u32, h);
    rows_map(
        modulate_bf16_batched(
            normed(x, ones_bf16(h), rows, h, w.norm_eps),
            modulation,
            rows,
            h,
            2,
        ),
        v[w.final_projection as int],
        rows,
        w.latent,
        h,
    )
}

/// What is predicted for one latent and one time under a positive and a negative
/// condition, of `p` and `n` values.
pub open spec fn guided(
    w: VibeVoiceDiffusionHead,
    v: Seq<Term>,
    noisy: Term,
    time: Term,
    positive: Term,
    p: u32,
    negative: Term,
    n: u32,
) -> (Term, Term) {
    let both = predicted(
        w,
        v,
        join_rows(noisy, noisy, 1, w.latent, w.latent),
        join_rows(time, time, 1, 256, 256),
        join_rows(positive, negative, 1, p, n),
        2,
    );
    (
        copy_from(both, w.latent as usize, 0),
        copy_from(both, w.latent as usize, w.latent as usize),
    )
}

/// The buffers that the layers work in.
#[derive(Clone, Copy, Debug, PartialEq, Eq, Structural)]
struct Workspace {
    x: usize,
    guide: usize,
    wide: usize,
    norm: usize,
    modulation: usize,
    modulated: usize,
    gate: usize,
    up: usize,
    active: usize,
    delta: usize,
}

/// The buffers are apart from one another and from what was there before, and
/// large enough.
spec fn laid_out(s: Workspace, start: Plan, plan: Plan, rows: u32, h: u32, inner: u32) -> bool {
    &&& start.values().len() <= s.x < s.guide < s.wide < s.norm < s.modulation < s.modulated
        < s.gate < s.up < s.active < s.delta < plan.values().len()
    &&& plan.sizes()[s.x as int] == rows * h
    &&& plan.sizes()[s.guide as int] == rows * h
    &&& plan.sizes()[s.wide as int] == rows * h
    &&& plan.sizes()[s.norm as int] == rows * h
    &&& plan.sizes()[s.modulation as int] == rows * h * 3
    &&& plan.sizes()[s.modulated as int] == rows * h
    &&& plan.sizes()[s.gate as int] == rows * inner
    &&& plan.sizes()[s.up as int] == rows * inner
    &&& plan.sizes()[s.active as int] == rows * inner
    &&& plan.sizes()[s.delta as int] == rows * h
}

/// Runs a layer in place.
fn run_layer(
    plan: &mut Plan,
    layer: &DiffusionLayer,
    s: Workspace,
    rows: u32,
    h: u32,
    inner: u32,
    eps: Scalar,
    Ghost(start): Ghost<Plan>,
)
    requires
        old(plan).wf(),
        extends(start, *old(plan)),
        layer.fits(start, h as int, inner as int),
        laid_out(s, start, *old(plan), rows, h, inner),
        rows > 0,
        rows * h <= u32::MAX,
        rows * inner <= u32::MAX,
        3 * h <= u32::MAX,
    ensures
        final(plan).wf(),
        extends(start, *final(plan)),
        final(plan).sizes() == old(plan).sizes(),
        final(plan).values().len() == old(plan).values().len(),
        laid_out(s, start, *final(plan), rows, h, inner),
        final(plan).values()[s.guide as int] == old(plan).values()[s.guide as int],
        final(plan).values()[s.x as int] == layer_output(
            *layer,
            start.values(),
            old(plan).values()[s.x as int],
            old(plan).values()[s.guide as int],
            rows,
            h,
            inner,
            eps,
        ),
{
    reveal(layer_output);
    proof {
        assert(rows * (3 * h) == rows * h * 3) by (nonlinear_arith);
    }
    plan.copy_bf16_to_f32(s.x, s.wide, rows * h);
    plan.rms_norm_f32in_bf16(s.wide, layer.norm, s.norm, rows, h, eps);
    run_rows_map(plan, s.guide, layer.modulation, s.modulation, rows, 3 * h, h);
    plan.modulate_bf16_batched(s.norm, s.modulation, s.modulated, rows, h, 3);
    run_rows_map(plan, s.modulated, layer.gate, s.gate, rows, inner, h);
    run_rows_map(plan, s.modulated, layer.up, s.up, rows, inner, h);
    plan.silu_bf16(s.gate, s.up, s.active, rows * inner);
    run_rows_map(plan, s.active, layer.down, s.delta, rows, h, inner);
    plan.gated_residual_bf16_batched(s.x, s.modulation, s.delta, rows, h);
}

/// Why rows cannot be predicted, if they cannot.
pub open spec fn rows_fault(w: VibeVoiceDiffusionHead, noisy: int, condition: int, rows: int) -> Option<
    Seq<char>,
> {
    if rows <= 0 || noisy != rows * w.latent {
        Some(
            "VibeVoice noisy latent has "@ + decimal(noisy as nat) + " values, expected "@
                + decimal((rows * w.latent) as nat),
        )
    } else if condition != rows * w.hidden {
        Some(
            "VibeVoice diffusion condition has "@ + decimal(condition as nat)
                + " values, expected "@ + decimal((rows * w.hidden) as nat),
        )
    } else {
        None
    }
}

/// Everything the head counts over that many rows can be counted.
pub open spec fn rows_countable(w: VibeVoiceDiffusionHead, rows: int) -> bool {
    &&& 3 * w.hidden <= u32::MAX
    &&& rows * w.hidden <= u32::MAX
    &&& rows * w.intermediate <= u32::MAX
    &&& rows * w.latent <= u32::MAX
    &&& rows * w.hidden * 3 <= usize::MAX
    &&& rows * w.intermediate <= usize::MAX
    &&& rows * w.latent <= usize::MAX
}

impl VibeVoiceDiffusionHead {
    /// Computes what every layer is modulated by. The result names a fresh
    /// buffer.
    fn run_guidance(
        &self,
        plan: &mut Plan,
        condition: usize,
        time: usize,
        rows: u32,
        Ghost(start): Ghost<Plan>,
    ) -> (out: usize)
        requires
            old(plan).wf(),
            extends(start, *old(plan)),
            self.fits(start),
            rows > 0,
            rows_countable(*self, rows as int),
            holds(*old(plan), condition, rows * self.hidden),
            holds(*old(plan), time, rows * 256),
        ensures
            final(plan).wf(),
            extends(*old(plan), *final(plan)),
            old(plan).values().len() <= out,
            out + 1 == final(plan).values().len(),
            final(plan).sizes()[out as int] == rows * self.hidden,
            final(plan).values()[out as int] == guidance(
                *self,
                start.values(),
                old(plan).values()[condition as int],
                old(plan).values()[time as int],
                rows,
            ),
    {
        let h: u32 = self.hidden;
        proof {
            assert(rows * h <= rows * h * 3) by (nonlinear_arith)
                requires
                    rows >= 0,
                    h >= 0,
            ;
        }
        let n: usize = rows as usize * h as usize;
        let projected: usize = plan.zeros(n);
        run_rows_map(plan, condition, self.condition_projection, projected, rows, h, h);
        let first: usize = plan.zeros(n);
        run_rows_map(plan, time, self.timestep_in, first, rows, h, 256);
        let active: usize = plan.zeros(n);
        plan.silu_act_bf16(first, active, rows * h);
        run_rows_map(plan, active, self.timestep_out, first, rows, h, h);
        let sum: usize = plan.zeros(n);
        plan.add_bf16(projected, first, sum, rows * h);
        let out: usize = plan.zeros(n);
        plan.silu_act_bf16(sum, out, rows * h);
        out
    }

    /// Runs all layers in place.
    fn run_layers(&self, plan: &mut Plan, s: Workspace, rows: u32, Ghost(start): Ghost<Plan>)
        requires
            old(plan).wf(),
            extends(start, *old(plan)),
            self.fits(start),
            rows > 0,
            rows_countable(*self, rows as int),
            laid_out(s, start, *old(plan), rows, self.hidden, self.intermediate),
        ensures
            final(plan).wf(),
            extends(start, *final(plan)),
            laid_out(s, start, *final(plan), rows, self.hidden, self.intermediate),
            final(plan).values().len() == old(plan).values().len(),
            final(plan).values()[s.guide as int] == old(plan).values()[s.guide as int],
            final(plan).values()[s.x as int] == layers_output(
                *self,
                start.values(),
                old(plan).values()[s.x as int],
                old(plan).values()[s.guide as int],
                rows,
                self.layers@.len(),
            ),
    {
        let ghost first = *plan;
        for i in 0..self.layers.len()
            invariant
                plan.wf(),
                extends(start, *plan),
                self.fits(start),
                rows > 0,
                rows_countable(*self, rows as int),
                laid_out(s, start, *plan, rows, self.hidden, self.intermediate),
                plan.values().len() == first.values().len(),
                plan.values()[s.guide as int] == first.values()[s.guide as int],
                plan.values()[s.x as int] == layers_output(
                    *self,
                    start.values(),
                    first.values()[s.x as int],
                    first.values()[s.guide as int],
                    rows,
                    i as nat,
                ),
        {
            assert(self.layers@[i as int].fits(start, self.hidden as int, self.intermediate as int));
            run_layer(
                plan,
                &self.layers[i],
                s,
                rows,
                self.hidden,
                self.intermediate,
                self.norm_eps,
                Ghost(start),
            );
        }
    }

    /// Predicts `rows` velocities. `time` holds 256 values per row.
    fn forward_rows(
        &self,
        plan: &mut Plan,
        noisy: usize,
        time: usize,
        condition: usize,
        rows: u32,
    ) -> (outcome: Result<usize, String>)
        requires
            old(plan).wf(),
            self.fits(*old(plan)),
            rows_countable(*self, rows as int),
            noisy < old(plan).values().len(),
            condition < old(plan).values().len(),
            holds(*old(plan), time, rows * 256),
        ensures
            final(plan).wf(),
            ({
                let fault = rows_fault(
                    *self,
                    old(plan).sizes()[noisy as int] as int,
                    old(plan).sizes()[condition as int] as int,
                    rows as int,
                );
                match outcome {
                    Err(message) => fault == Some(message@) && *final(plan) == *old(plan),
                    Ok(out) => {
                        &&& fault is None
                        &&& extends(*old(plan), *final(plan))
                        &&& out < final(plan).values().len()
                        &&& final(plan).sizes()[out as int] == rows * self.latent
                        &&& final(plan).values()[out as int] == predicted(
                            *self,
                            old(plan).values(),
                            old(plan).values()[noisy as int],
                            old(plan).values()[time as int],
                            old(plan).values()[condition as int],
                            rows,
                        )
                    },
                }
            }),
    {
        let ghost start = *plan;
        let h: u32 = self.hidden;
        let inner: u32 = self.intermediate;
        let latent: u32 = self.latent;
        proof {
            assert(rows * h <= rows * h * 3) by (nonlinear_arith)
                requires
                    rows >= 0,
                    h >= 0,
            ;
            assert(rows * (2 * h) == rows * h * 2) by (nonlinear_arith);
        }
        let wanted: u32 = rows * latent;
        if rows == 0 || plan.size(noisy) as u64 != wanted as u64 {
            return Err(
                "VibeVoice noisy latent has ".to_owned().concat(
                    &to_decimal(plan.size(noisy) as u64),
                ).concat(" values, expected ").concat(&to_decimal(wanted as u64)),
            );
        }
        let n: usize = rows as usize * h as usize;
        if plan.size(condition) != n {
            return Err(
                "VibeVoice diffusion condition has ".to_owned().concat(
                    &to_decimal(plan.size(condition) as u64),
                ).concat(" values, expected ").concat(&to_decimal(n as u64)),
            );
        }
        let x: usize = plan.zeros(n);
        run_rows_map(plan, noisy, self.noisy_projection, x, rows, h, latent);
        let guide: usize = self.run_guidance(plan, condition, time, rows, Ghost(start));
        let wide: usize = plan.zeros(n);
        let norm: usize = plan.zeros(n);
        let modulation: usize = plan.zeros(n * 3);
        let modulated: usize = plan.zeros(n);
        let gate: usize = plan.zeros(rows as usize * inner as usize);
        let up: usize = plan.zeros(rows as usize * inner as usize);
        let active: usize = plan.zeros(rows as usize * inner as usize);
        let delta: usize = plan.zeros(n);
        let s = Workspace {
            x,
            guide,
            wide,
            norm,
            modulation,
            modulated,
            gate,
            up,
            active,
            delta,
        };
        self.run_layers(plan, s, rows, Ghost(start));
        plan.copy_bf16_to_f32(x, wide, rows * h);
        let ones: usize = plan.zeros(h as usize);
        plan.ones_bf16(ones, h);
        plan.rms_norm_f32in_bf16(wide, ones, norm, rows, h, self.norm_eps);
        let final_modulation: usize = plan.zeros(n * 2);
        run_rows_map(plan, guide, self.final_modulation, final_modulation, rows, 2 * h, h);
        plan.modulate_bf16_batched(norm, final_modulation, modulated, rows, h, 2);
        let out: usize = plan.zeros(wanted as usize);
        run_rows_map(plan, modulated, self.final_projection, out, rows, latent, h);
        Ok(out)
    }

    /// Predicts the velocity of one latent. `time` holds 256 values.
    pub fn forward(&self, plan: &mut Plan, noisy: usize, time: usize, condition: usize) -> (outcome:
        Result<usize, String>)
        requires
            old(plan).wf(),
            self.fits(*old(plan)),
            rows_countable(*self, 1),
            noisy < old(plan).values().len(),
            condition < old(plan).values().len(),
            holds(*old(plan), time, 256),
        ensures
            final(plan).wf(),
            ({
                let fault = rows_fault(
                    *self,
                    old(plan).sizes()[noisy as int] as int,
                    old(plan).sizes()[condition as int] as int,
                    1,
                );
                match outcome {
                    Err(message) => fault == Some(message@) && *final(plan) == *old(plan),
                    Ok(out) => {
                        &&& fault is None
                        &&& extends(*old(plan), *final(plan))
                        &&& out < final(plan).values().len()
                        &&& final(plan).sizes()[out as int] == self.latent
                        &&& final(plan).values()[out as int] == predicted(
                            *self,
                            old(plan).values(),
                            old(plan).values()[noisy as int],
                            old(plan).values()[time as int],
                            old(plan).values()[condition as int],
                            1,
                        )
                    },
                }
            }),
    {
        self.forward_rows(plan, noisy, time, condition, 1)
    }

    /// Predicts the velocity of one latent under two conditions at once. The
    /// result names both velocities.
    pub fn forward_cfg(
        &self,
        plan: &mut Plan,
        noisy: usize,
        time: usize,
        positive: usize,
        negative: usize,
    ) -> (outcome: Result<(usize, usize), String>)
        requires
            old(plan).wf(),
            self.fits(*old(plan)),
            rows_countable(*self, 2),
            noisy < old(plan).values().len(),
            positive < old(plan).values().len(),
            negative < old(plan).values().len(),
            holds(*old(plan), time, 256),
            old(plan).sizes()[positive as int] + old(plan).sizes()[negative as int] <= u32::MAX,
            old(plan).sizes()[positive as int] + old(plan).sizes()[negative as int] <= usize::MAX,
        ensures
            final(plan).wf(),
            extends(*old(plan), *final(plan)),
            ({
                let v = old(plan).values();
                let p = old(plan).sizes()[positive as int];
                let n = old(plan).sizes()[negative as int];
                let fault = cfg_fault(
                    *self,
                    old(plan).sizes()[noisy as int] as int,
                    p + n,
                );
                match outcome {
                    Err(message) => fault == Some(message@),
                    Ok((a, b)) => {
                        let both = predicted(
                            *self,
                            v,
                            join_rows(
                                v[noisy as int],
                                v[noisy as int],
                                1,
                                self.latent,
                                self.latent,
                            ),
                            join_rows(v[time as int], v[time as int], 1, 256, 256),
                            join_rows(
                                v[positive as int],
                                v[negative as int],
                                1,
                                p as u32,
                                n as u32,
                            ),
                            2,
                        );
                        &&& fault is None
                        &&& a < final(plan).values().len()
                        &&& b < final(plan).values().len()
                        &&& final(plan).sizes()[a as int] == self.latent
                        &&& final(plan).sizes()[b as int] == self.latent
                        &&& final(plan).values()[a as int] == copy_from(
                            both,
                            self.latent as usize,
                            0,
                        )
                        &&& final(plan).values()[b as int] == copy_from(
                            both,
                            self.latent as usize,
                            self.latent as usize,
                        )
                        &&& (final(plan).values()[a as int], final(plan).values()[b as int])
                            == guided(
                            *self,
                            v,
                            v[noisy as int],
                            v[time as int],
                            v[positive as int],
                            p as u32,
                            v[negative as int],
                            n as u32,
                        )
                    },
                }
            }),
    {
        let ghost start = *plan;
        let latent: u32 = self.latent;
        if plan.size(noisy) as u64 != latent as u64 {
            return Err("VibeVoice CFG noisy latent geometry disagrees".to_owned());
        }
        let p: usize = plan.size(positive);
        let n: usize = plan.size(negative);
        let twice: usize = plan.zeros(2 * latent as usize);
        plan.join_rows(noisy, noisy, twice, 1, latent, latent);
        let times: usize = plan.zeros(512);
        plan.join_rows(time, time, times, 1, 256, 256);
        let conditions: usize = plan.zeros(p + n);
        plan.join_rows(positive, negative, conditions, 1, p as u32, n as u32);
        let ghost middle = *plan;
        match self.forward_rows(plan, twice, times, conditions, 2) {
            Err(message) => Err(message),
            Ok(both) => {
                proof {
                    lemma_predicted_at(
                        *self,
                        start,
                        middle,
                        middle.values()[twice as int],
                        middle.values()[times as int],
                        middle.values()[conditions as int],
                        2,
                    );
                }
                let a: usize = plan.zeros(latent as usize);
                plan.copy_from(both, a, latent as usize, 0);
                let b: usize = plan.zeros(latent as usize);
                plan.copy_from(both, b, latent as usize, latent as usize);
                Ok((a, b))
            },
        }
    }
}

/// Why a latent cannot be predicted under two conditions, if it cannot.
pub open spec fn cfg_fault(w: VibeVoiceDiffusionHead, noisy: int, conditions: int) -> Option<Seq<char>> {
    if noisy != w.latent {
        Some("VibeVoice CFG noisy latent geometry disagrees"@)
    } else {
        rows_fault(w, 2 * noisy, conditions, 2)
    }
}

proof fn lemma_layers_at(
    w: VibeVoiceDiffusionHead,
    a: Plan,
    b: Plan,
    x: Term,
    guide: Term,
    rows: u32,
    n: nat,
)
    requires
        extends(a, b),
        w.fits(a),
        n <= w.layers@.len(),
    ensures
        layers_output(w, a.values(), x, guide, rows, n) == layers_output(
            w,
            b.values(),
            x,
            guide,
            rows,
            n,
        ),
    decreases n,
{
    if n > 0 {
        lemma_layers_at(w, a, b, x, guide, rows, (n - 1) as nat);
        assert(w.layers@[n - 1].fits(a, w.hidden as int, w.intermediate as int));
        reveal(layer_output);
    }
}

/// A longer plan with the same weights predicts alike.
proof fn lemma_predicted_at(
    w: VibeVoiceDiffusionHead,
    a: Plan,
    b: Plan,
    noisy: Term,
    time: Term,
    condition: Term,
    rows: u32,
)
    requires
        extends(a, b),
        w.fits(a),
    ensures
        predicted(w, a.values(), noisy, time, condition, rows) == predicted(
            w,
            b.values(),
            noisy,
            time,
            condition,
            rows,
        ),
{
    lemma_layers_at(
        w,
        a,
        b,
        rows_map(noisy, a.values()[w.noisy_projection as int], rows, w.hidden, w.latent),
        guidance(w, a.values(), condition, time, rows),
        rows,
        w.layers@.len(),
    );
}

impl DiffusionLayer {
    /// Loaded weights exist at their full size.
    proof fn lemma_loaded(plan: Plan, base: int, i: nat, hidden: usize, intermediate: usize)
        requires
            3 * hidden <= usize::MAX,
            stores(plan, base, layer_tensors(i, hidden, intermediate)),
        ensures
            Self::at(base).fits(plan, hidden as int, intermediate as int),
    {
        let tensors = layer_tensors(i, hidden, intermediate);
        lemma_stored1(plan, base, tensors, 0, hidden);
        lemma_stored2(plan, base, tensors, 1, (hidden * 3) as usize, hidden);
        lemma_stored2(plan, base, tensors, 2, intermediate, hidden);
        lemma_stored2(plan, base, tensors, 3, intermediate, hidden);
        lemma_stored2(plan, base, tensors, 4, hidden, intermediate);
    }
}

proof fn lemma_layers_loaded(
    plan: Plan,
    base: int,
    n: nat,
    i: int,
    hidden: usize,
    intermediate: usize,
)
    requires
        0 <= i < n,
        3 * hidden <= usize::MAX,
        stores(plan, base, layers_tensors(n, hidden, intermediate)),
    ensures
        DiffusionLayer::at(base + 5 * i).fits(plan, hidden as int, intermediate as int),
    decreases n,
{
    let m = (n - 1) as nat;
    let a = layers_tensors(m, hidden, intermediate);
    let b = layer_tensors(m, hidden, intermediate);
    lemma_layers_len(m, hidden, intermediate);
    lemma_stores_split(plan, base, a, b);
    if i == m {
        DiffusionLayer::lemma_loaded(plan, base + 5 * m, m, hidden, intermediate);
    } else {
        lemma_layers_loaded(plan, base, m, i, hidden, intermediate);
    }
}

proof fn lemma_layers_len(n: nat, hidden: usize, intermediate: usize)
    ensures
        layers_tensors(n, hidden, intermediate).len() == 5 * n,
    decreases n,
{
    if n > 0 {
        lemma_layers_len((n - 1) as nat, hidden, intermediate);
    }
}

impl VibeVoiceDiffusionHead {
    /// Loaded weights exist at their full size.
    pub proof fn law_loaded_weights_fit(
        self,
        plan: Plan,
        base: int,
        hidden: usize,
        intermediate: usize,
        latent: usize,
    )
        requires
            head_widths_fit(hidden, intermediate, latent),
            self.is_at(base, hidden, intermediate, latent),
            stores(
                plan,
                base,
                layers_tensors(self.layers@.len(), hidden, intermediate) + frame_tensors(
                    hidden,
                    latent,
                ),
            ),
        ensures
            self.fits(plan),
    {
        let n = self.layers@.len();
        let a = layers_tensors(n, hidden, intermediate);
        let b = frame_tensors(hidden, latent);
        lemma_layers_len(n, hidden, intermediate);
        lemma_stores_split(plan, base, a, b);
        assert forall|i: int| 0 <= i < n implies (#[trigger] self.layers@[i]).fits(
            plan,
            self.hidden as int,
            self.intermediate as int,
        ) by {
            lemma_layers_loaded(plan, base, n, i, hidden, intermediate);
        }
        let rest = base + 5 * n;
        lemma_stored2(plan, rest, b, 0, hidden, latent);
        lemma_stored2(plan, rest, b, 1, hidden, hidden);
        lemma_stored2(plan, rest, b, 2, hidden, 256);
        lemma_stored2(plan, rest, b, 3, hidden, hidden);
        lemma_stored2(plan, rest, b, 4, (hidden * 2) as usize, hidden);
        lemma_stored2(plan, rest, b, 5, latent, hidden);
    }
}

} // verus!
