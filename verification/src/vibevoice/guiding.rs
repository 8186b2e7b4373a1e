//! What the diffusion head promises: what its predictions are made from, that
//! rows do not mix, and how the condition and the time come together.
use vstd::prelude::*;
use crate::device::{Scalar, Term};
use crate::device::kernels::Kernel;
use crate::device::meaning::{
    Machine, alike, group_numbers, group_origins, made_from, neutral, nothing, numbers, origins, piece,
    product_rows, silent, still, zero_row,
};
use crate::device::rows::{
    lemma_admitted_row, lemma_gated_row, lemma_in_row, lemma_joined_rows, lemma_mapped_row,
    lemma_modulated_row, lemma_normed_row, lemma_product_row, lemma_summed_row, same_row,
};
use crate::device::value::{
    add_bf16, copy_bf16_to_f32, copy_from, gated_residual_bf16_batched, gemv_bf16, join_rows,
    matmul_bf16, modulate_bf16_batched, ones_bf16, rms_norm_f32in_bf16, silu_act_bf16, silu_bf16,
};
use crate::vibevoice::diffusion::{
    DiffusionLayer, VibeVoiceDiffusionHead, guidance, guided, layer_output, layers_output, normed, predicted,
    rows_map,
};

verus! {

/// Everything that the weights of a layer are made from goes into `t`.
pub open spec fn uses_layer(t: Term, v: Seq<Term>, layer: DiffusionLayer) -> bool {
    &&& made_from(t, v[layer.norm as int])
    &&& made_from(t, v[layer.modulation as int])
    &&& made_from(t, v[layer.gate as int])
    &&& made_from(t, v[layer.up as int])
    &&& made_from(t, v[layer.down as int])
}

proof fn lemma_map_origins(x: Term, weight: Term, rows: u32, n: u32, k: u32)
    ensures
        origins(rows_map(x, weight, rows, n, k)) == origins(x).union(origins(weight)),
{
    broadcast use group_origins;

    assert(gemv_bf16(x, weight, n, k)->args.len() == 2);
    assert(matmul_bf16(x, weight, rows, n, k)->args.len() == 2);
}

proof fn lemma_layer_origins(
    layer: DiffusionLayer,
    v: Seq<Term>,
    x: Term,
    guide: Term,
    rows: u32,
    h: u32,
    inner: u32,
    eps: Scalar,
)
    ensures
        ({
            let t = layer_output(layer, v, x, guide, rows, h, inner, eps);
            made_from(t, x) && made_from(t, guide) && uses_layer(t, v, layer)
        }),
{
    broadcast use group_origins;

    reveal(layer_output);
    let by = rows_map(guide, v[layer.modulation as int], rows, (3 * h) as u32, h);
    lemma_map_origins(guide, v[layer.modulation as int], rows, (3 * h) as u32, h);
    let wide = copy_bf16_to_f32(x, (rows * h) as u32);
    assert(wide->args.len() == 1);
    let n = rms_norm_f32in_bf16(wide, v[layer.norm as int], rows, h, eps);
    assert(n->args.len() == 2);
    assert(normed(x, v[layer.norm as int], rows, h, eps) == n);
    let y = modulate_bf16_batched(n, by, rows, h, 3);
    assert(y->args.len() == 2);
    let gate = rows_map(y, v[layer.gate as int], rows, inner, h);
    let up = rows_map(y, v[layer.up as int], rows, inner, h);
    lemma_map_origins(y, v[layer.gate as int], rows, inner, h);
    lemma_map_origins(y, v[layer.up as int], rows, inner, h);
    let active = silu_bf16(gate, up, (rows * inner) as u32);
    assert(active->args.len() == 2);
    let down = rows_map(active, v[layer.down as int], rows, h, inner);
    lemma_map_origins(active, v[layer.down as int], rows, h, inner);
    assert(gated_residual_bf16_batched(x, by, down, rows, h)->args.len() == 3);
}

proof fn lemma_layers_origins(
    w: VibeVoiceDiffusionHead,
    v: Seq<Term>,
    x: Term,
    guide: Term,
    rows: u32,
    n: nat,
)
    requires
        n <= w.layers@.len(),
    ensures
        made_from(layers_output(w, v, x, guide, rows, n), x),
        forall|i: int|
            0 <= i < n ==> uses_layer(
                layers_output(w, v, x, guide, rows, n),
                v,
                #[trigger] w.layers@[i],
            ),
    decreases n,
{
    if n > 0 {
        let before = layers_output(w, v, x, guide, rows, (n - 1) as nat);
        lemma_layers_origins(w, v, x, guide, rows, (n - 1) as nat);
        lemma_layer_origins(
            w.layers@[n - 1],
            v,
            before,
            guide,
            rows,
            w.hidden,
            w.intermediate,
            w.norm_eps,
        );
    }
}

proof fn lemma_guidance_origins(
    w: VibeVoiceDiffusionHead,
    v: Seq<Term>,
    condition: Term,
    time: Term,
    rows: u32,
)
    ensures
        ({
            let t = guidance(w, v, condition, time, rows);
            &&& made_from(t, condition)
            &&& made_from(t, time)
            &&& made_from(t, v[w.condition_projection as int])
            &&& made_from(t, v[w.timestep_in as int])
            &&& made_from(t, v[w.timestep_out as int])
        }),
{
    broadcast use group_origins;

    let h = w.hidden;
    let n = (rows * h) as u32;
    let a = rows_map(time, v[w.timestep_in as int], rows, h, 256);
    lemma_map_origins(time, v[w.timestep_in as int], rows, h, 256);
    let inner = silu_act_bf16(a, n);
    assert(inner->args.len() == 1);
    let b = rows_map(inner, v[w.timestep_out as int], rows, h, h);
    lemma_map_origins(inner, v[w.timestep_out as int], rows, h, h);
    let p = rows_map(condition, v[w.condition_projection as int], rows, h, h);
    lemma_map_origins(condition, v[w.condition_projection as int], rows, h, h);
    let sum = add_bf16(p, b, n);
    assert(sum->args.len() == 2);
    assert(silu_act_bf16(sum, n)->args.len() == 1);
}

/// A prediction is made from the latent, the time and the condition, and from
/// every weight of the head.
pub proof fn law_predictions_use_every_input_and_weight(
    w: VibeVoiceDiffusionHead,
    v: Seq<Term>,
    noisy: Term,
    time: Term,
    condition: Term,
    rows: u32,
)
    ensures
        ({
            let t = predicted(w, v, noisy, time, condition, rows);
            &&& made_from(t, noisy)
            &&& made_from(t, time)
            &&& made_from(t, condition)
            &&& made_from(t, v[w.noisy_projection as int])
            &&& made_from(t, v[w.condition_projection as int])
            &&& made_from(t, v[w.timestep_in as int])
            &&& made_from(t, v[w.timestep_out as int])
            &&& made_from(t, v[w.final_modulation as int])
            &&& made_from(t, v[w.final_projection as int])
            &&& forall|i: int|
                0 <= i < w.layers@.len() ==> uses_layer(t, v, #[trigger] w.layers@[i])
        }),
{
    broadcast use group_origins;

    let h = w.hidden;
    let guide = guidance(w, v, condition, time, rows);
    lemma_guidance_origins(w, v, condition, time, rows);
    let first = rows_map(noisy, v[w.noisy_projection as int], rows, h, w.latent);
    lemma_map_origins(noisy, v[w.noisy_projection as int], rows, h, w.latent);
    let x = layers_output(w, v, first, guide, rows, w.layers@.len());
    lemma_layers_origins(w, v, first, guide, rows, w.layers@.len());
    let by = rows_map(guide, v[w.final_modulation as int], rows, (2 * h) as u32, h);
    lemma_map_origins(guide, v[w.final_modulation as int], rows, (2 * h) as u32, h);
    let wide = copy_bf16_to_f32(x, (rows * h) as u32);
    assert(wide->args.len() == 1);
    let n = rms_norm_f32in_bf16(wide, ones_bf16(h), rows, h, w.norm_eps);
    assert(n->args.len() == 2);
    assert(normed(x, ones_bf16(h), rows, h, w.norm_eps) == n);
    let y = modulate_bf16_batched(n, by, rows, h, 2);
    assert(y->args.len() == 2);
    lemma_map_origins(y, v[w.final_projection as int], rows, w.latent, h);
}

proof fn lemma_map_tells(x: Term, y: Term, weight: Term, rows: u32, n: u32, k: u32)
    requires
        rows_map(x, weight, rows, n, k) == rows_map(y, weight, rows, n, k),
    ensures
        x == y,
{
    assert(rows_map(x, weight, rows, n, k)->args[0] == x);
    assert(rows_map(y, weight, rows, n, k)->args[0] == y);
}

/// Different times, and different conditions, give different guidance.
proof fn lemma_guidance_tells(
    w: VibeVoiceDiffusionHead,
    v: Seq<Term>,
    condition: Term,
    time: Term,
    other_condition: Term,
    other_time: Term,
    rows: u32,
)
    requires
        guidance(w, v, condition, time, rows) == guidance(w, v, other_condition, other_time, rows),
    ensures
        condition == other_condition,
        time == other_time,
{
    let h = w.hidden;
    let n = (rows * h) as u32;
    let a = silu_act_bf16(rows_map(time, v[w.timestep_in as int], rows, h, 256), n);
    let b = silu_act_bf16(rows_map(other_time, v[w.timestep_in as int], rows, h, 256), n);
    let x = add_bf16(
        rows_map(condition, v[w.condition_projection as int], rows, h, h),
        rows_map(a, v[w.timestep_out as int], rows, h, h),
        n,
    );
    let y = add_bf16(
        rows_map(other_condition, v[w.condition_projection as int], rows, h, h),
        rows_map(b, v[w.timestep_out as int], rows, h, h),
        n,
    );
    assert(silu_act_bf16(x, n)->args[0] == x);
    assert(silu_act_bf16(y, n)->args[0] == y);
    assert(x->args[0] == y->args[0] && x->args[1] == y->args[1]);
    lemma_map_tells(condition, other_condition, v[w.condition_projection as int], rows, h, h);
    lemma_map_tells(a, b, v[w.timestep_out as int], rows, h, h);
    assert(a->args[0] == b->args[0]);
    lemma_map_tells(time, other_time, v[w.timestep_in as int], rows, h, 256);
}

/// Different times, and different conditions, give different predictions.
pub proof fn law_predictions_tell_times_and_conditions_apart(
    w: VibeVoiceDiffusionHead,
    v: Seq<Term>,
    noisy: Term,
    condition: Term,
    time: Term,
    other_condition: Term,
    other_time: Term,
    rows: u32,
)
    requires
        time != other_time || condition != other_condition,
    ensures
        predicted(w, v, noisy, time, condition, rows) != predicted(
            w,
            v,
            noisy,
            other_time,
            other_condition,
            rows,
        ),
{
    if predicted(w, v, noisy, time, condition, rows) == predicted(
        w,
        v,
        noisy,
        other_time,
        other_condition,
        rows,
    ) {
        let h = w.hidden;
        let g = guidance(w, v, condition, time, rows);
        let k = guidance(w, v, other_condition, other_time, rows);
        let first = rows_map(noisy, v[w.noisy_projection as int], rows, h, w.latent);
        let gx = layers_output(w, v, first, g, rows, w.layers@.len());
        let kx = layers_output(w, v, first, k, rows, w.layers@.len());
        let gb = rows_map(g, v[w.final_modulation as int], rows, (2 * h) as u32, h);
        let kb = rows_map(k, v[w.final_modulation as int], rows, (2 * h) as u32, h);
        let gy = modulate_bf16_batched(normed(gx, ones_bf16(h), rows, h, w.norm_eps), gb, rows, h, 2);
        let ky = modulate_bf16_batched(normed(kx, ones_bf16(h), rows, h, w.norm_eps), kb, rows, h, 2);
        lemma_map_tells(gy, ky, v[w.final_projection as int], rows, w.latent, h);
        assert(gy->args[1] == gb && ky->args[1] == kb);
        lemma_map_tells(g, k, v[w.final_modulation as int], rows, (2 * h) as u32, h);
        lemma_guidance_tells(w, v, condition, time, other_condition, other_time, rows);
    }
}

proof fn lemma_map_numbers(m: Machine, x: Term, weight: Term, rows: u32, n: u32, k: u32)
    ensures
        numbers(m, rows_map(x, weight, rows, n, k)) == product_rows(
            m,
            true,
            numbers(m, x),
            numbers(m, weight),
            n as int,
            k as int,
        ),
{
    broadcast use group_numbers;

    assert(gemv_bf16(x, weight, n, k)->args.len() == 2);
    assert(matmul_bf16(x, weight, rows, n, k)->args.len() == 2);
}

/// What guidance is activated from: number `j` of the projected condition and
/// number `j` of the mapped time, added.
proof fn lemma_guidance_numbers(
    m: Machine,
    w: VibeVoiceDiffusionHead,
    v: Seq<Term>,
    condition: Term,
    time: Term,
    rows: u32,
    j: int,
)
    ensures
        ({
            let h = w.hidden;
            let n = (rows * h) as u32;
            let inner = silu_act_bf16(rows_map(time, v[w.timestep_in as int], rows, h, 256), n);
            numbers(m, guidance(w, v, condition, time, rows))(j) == (m.each)(
                Kernel::SiluActBf16,
                (m.add)(
                    numbers(m, rows_map(condition, v[w.condition_projection as int], rows, h, h))(j),
                    numbers(m, rows_map(inner, v[w.timestep_out as int], rows, h, h))(j),
                ),
                Seq::empty(),
            )
        }),
{
    broadcast use group_numbers;

    let h = w.hidden;
    let n = (rows * h) as u32;
    let inner = silu_act_bf16(rows_map(time, v[w.timestep_in as int], rows, h, 256), n);
    let sum = add_bf16(
        rows_map(condition, v[w.condition_projection as int], rows, h, h),
        rows_map(inner, v[w.timestep_out as int], rows, h, h),
        n,
    );
    assert(sum->args.len() == 2);
    assert(silu_act_bf16(sum, n)->args.len() == 1);
    assert(seq![Scalar::Count(n)].skip(1) =~= Seq::empty());
}

/// Where the time counts for nothing, guidance is the projected condition,
/// once, activated.
pub proof fn law_guidance_holds_the_condition_once(
    m: Machine,
    w: VibeVoiceDiffusionHead,
    v: Seq<Term>,
    condition: Term,
    time: Term,
    rows: u32,
    j: int,
)
    requires
        neutral(m),
        silent(m, true, v[w.timestep_out as int]),
    ensures
        numbers(m, guidance(w, v, condition, time, rows))(j) == (m.each)(
            Kernel::SiluActBf16,
            numbers(m, rows_map(condition, v[w.condition_projection as int], rows, w.hidden, w.hidden))(
                j,
            ),
            Seq::empty(),
        ),
{
    let h = w.hidden;
    let n = (rows * h) as u32;
    let inner = silu_act_bf16(rows_map(time, v[w.timestep_in as int], rows, h, 256), n);
    lemma_guidance_numbers(m, w, v, condition, time, rows, j);
    lemma_map_numbers(m, inner, v[w.timestep_out as int], rows, h, h);
}

/// Where the condition counts for nothing, guidance is the mapped time, once,
/// activated.
pub proof fn law_guidance_holds_the_time_once(
    m: Machine,
    w: VibeVoiceDiffusionHead,
    v: Seq<Term>,
    condition: Term,
    time: Term,
    rows: u32,
    j: int,
)
    requires
        neutral(m),
        silent(m, true, v[w.condition_projection as int]),
    ensures
        ({
            let h = w.hidden;
            let n = (rows * h) as u32;
            let inner = silu_act_bf16(rows_map(time, v[w.timestep_in as int], rows, h, 256), n);
            numbers(m, guidance(w, v, condition, time, rows))(j) == (m.each)(
                Kernel::SiluActBf16,
                numbers(m, rows_map(inner, v[w.timestep_out as int], rows, h, h))(j),
                Seq::empty(),
            )
        }),
{
    lemma_guidance_numbers(m, w, v, condition, time, rows, j);
    lemma_map_numbers(
        m,
        condition,
        v[w.condition_projection as int],
        rows,
        w.hidden,
        w.hidden,
    );
}

/// A row is mapped alike wherever it lies.
proof fn lemma_map_row(
    m: Machine,
    x: Term,
    y: Term,
    weight: Term,
    rows_x: u32,
    rows_y: u32,
    n: u32,
    k: u32,
    i: int,
    l: int,
)
    requires
        same_row(numbers(m, x), i, numbers(m, y), l, k as int),
    ensures
        same_row(
            numbers(m, rows_map(x, weight, rows_x, n, k)),
            i,
            numbers(m, rows_map(y, weight, rows_y, n, k)),
            l,
            n as int,
        ),
{
    lemma_map_numbers(m, x, weight, rows_x, n, k);
    lemma_map_numbers(m, y, weight, rows_y, n, k);
    lemma_product_row(
        m,
        true,
        numbers(m, x),
        numbers(m, y),
        numbers(m, weight),
        n as int,
        k as int,
        i,
        l,
    );
}

/// A row is activated alike wherever it lies.
proof fn lemma_activated_row(
    m: Machine,
    x: Term,
    y: Term,
    count_x: u32,
    count_y: u32,
    width: int,
    i: int,
    l: int,
)
    requires
        same_row(numbers(m, x), i, numbers(m, y), l, width),
    ensures
        same_row(
            numbers(m, silu_act_bf16(x, count_x)),
            i,
            numbers(m, silu_act_bf16(y, count_y)),
            l,
            width,
        ),
{
    broadcast use group_numbers;

    assert(silu_act_bf16(x, count_x)->args.len() == 1);
    assert(silu_act_bf16(y, count_y)->args.len() == 1);
    assert(seq![Scalar::Count(count_x)].skip(1) =~= Seq::empty());
    assert(seq![Scalar::Count(count_y)].skip(1) =~= Seq::empty());
    lemma_mapped_row(
        m,
        Kernel::SiluActBf16,
        numbers(m, x),
        numbers(m, y),
        Seq::empty(),
        width,
        i,
        l,
    );
}

/// A row is normalised alike wherever it lies.
proof fn lemma_normed(
    m: Machine,
    x: Term,
    y: Term,
    weight: Term,
    rows_x: u32,
    rows_y: u32,
    h: u32,
    eps: Scalar,
    i: int,
    l: int,
)
    requires
        same_row(numbers(m, x), i, numbers(m, y), l, h as int),
    ensures
        same_row(
            numbers(m, normed(x, weight, rows_x, h, eps)),
            i,
            numbers(m, normed(y, weight, rows_y, h, eps)),
            l,
            h as int,
        ),
{
    broadcast use group_numbers;

    let (cx, cy) = ((rows_x * h) as u32, (rows_y * h) as u32);
    let wx = copy_bf16_to_f32(x, cx);
    let wy = copy_bf16_to_f32(y, cy);
    assert(wx->args.len() == 1 && wy->args.len() == 1);
    assert(seq![Scalar::Count(cx)].skip(1) =~= Seq::empty());
    assert(seq![Scalar::Count(cy)].skip(1) =~= Seq::empty());
    lemma_mapped_row(
        m,
        Kernel::CopyBf16ToF32,
        numbers(m, x),
        numbers(m, y),
        Seq::empty(),
        h as int,
        i,
        l,
    );
    assert(rms_norm_f32in_bf16(wx, weight, rows_x, h, eps)->args.len() == 2);
    assert(rms_norm_f32in_bf16(wy, weight, rows_y, h, eps)->args.len() == 2);
    assert(1 * h == h);
    lemma_normed_row(
        m,
        Kernel::RmsNormF32inBf16,
        numbers(m, wx),
        numbers(m, wy),
        numbers(m, weight),
        nothing(),
        1,
        h as int,
        eps,
        i,
        l,
    );
}

/// A row is modulated alike wherever it lies.
proof fn lemma_modulated(
    m: Machine,
    x: Term,
    y: Term,
    by_x: Term,
    by_y: Term,
    rows_x: u32,
    rows_y: u32,
    h: u32,
    parts: u32,
    i: int,
    l: int,
)
    requires
        same_row(numbers(m, x), i, numbers(m, y), l, h as int),
        same_row(numbers(m, by_x), i, numbers(m, by_y), l, h * parts),
    ensures
        same_row(
            numbers(m, modulate_bf16_batched(x, by_x, rows_x, h, parts)),
            i,
            numbers(m, modulate_bf16_batched(y, by_y, rows_y, h, parts)),
            l,
            h as int,
        ),
{
    broadcast use group_numbers;

    assert(modulate_bf16_batched(x, by_x, rows_x, h, parts)->args.len() == 2);
    assert(modulate_bf16_batched(y, by_y, rows_y, h, parts)->args.len() == 2);
    lemma_modulated_row(
        m,
        numbers(m, x),
        numbers(m, y),
        numbers(m, by_x),
        numbers(m, by_y),
        h as int,
        parts as int,
        i,
        l,
    );
}

proof fn lemma_layer_row(
    m: Machine,
    layer: DiffusionLayer,
    v: Seq<Term>,
    x: Term,
    y: Term,
    guide_x: Term,
    guide_y: Term,
    rows_x: u32,
    rows_y: u32,
    h: u32,
    inner: u32,
    eps: Scalar,
    i: int,
    l: int,
)
    requires
        3 * h <= u32::MAX,
        same_row(numbers(m, x), i, numbers(m, y), l, h as int),
        same_row(numbers(m, guide_x), i, numbers(m, guide_y), l, h as int),
    ensures
        same_row(
            numbers(m, layer_output(layer, v, x, guide_x, rows_x, h, inner, eps)),
            i,
            numbers(m, layer_output(layer, v, y, guide_y, rows_y, h, inner, eps)),
            l,
            h as int,
        ),
{
    broadcast use group_numbers;

    reveal(layer_output);
    let wide = (3 * h) as u32;
    let by_x = rows_map(guide_x, v[layer.modulation as int], rows_x, wide, h);
    let by_y = rows_map(guide_y, v[layer.modulation as int], rows_y, wide, h);
    lemma_map_row(m, guide_x, guide_y, v[layer.modulation as int], rows_x, rows_y, wide, h, i, l);
    assert(h * 3 == wide);
    let nx = normed(x, v[layer.norm as int], rows_x, h, eps);
    let ny = normed(y, v[layer.norm as int], rows_y, h, eps);
    lemma_normed(m, x, y, v[layer.norm as int], rows_x, rows_y, h, eps, i, l);
    let ux = modulate_bf16_batched(nx, by_x, rows_x, h, 3);
    let uy = modulate_bf16_batched(ny, by_y, rows_y, h, 3);
    lemma_modulated(m, nx, ny, by_x, by_y, rows_x, rows_y, h, 3, i, l);
    let gx = rows_map(ux, v[layer.gate as int], rows_x, inner, h);
    let gy = rows_map(uy, v[layer.gate as int], rows_y, inner, h);
    lemma_map_row(m, ux, uy, v[layer.gate as int], rows_x, rows_y, inner, h, i, l);
    let px = rows_map(ux, v[layer.up as int], rows_x, inner, h);
    let py = rows_map(uy, v[layer.up as int], rows_y, inner, h);
    lemma_map_row(m, ux, uy, v[layer.up as int], rows_x, rows_y, inner, h, i, l);
    let (cx, cy) = ((rows_x * inner) as u32, (rows_y * inner) as u32);
    let ax = silu_bf16(gx, px, cx);
    let ay = silu_bf16(gy, py, cy);
    assert(ax->args.len() == 2 && ay->args.len() == 2);
    lemma_gated_row(
        m,
        Kernel::SiluBf16,
        numbers(m, px),
        numbers(m, py),
        numbers(m, gx),
        numbers(m, gy),
        inner as int,
        i,
        l,
    );
    let dx = rows_map(ax, v[layer.down as int], rows_x, h, inner);
    let dy = rows_map(ay, v[layer.down as int], rows_y, h, inner);
    lemma_map_row(m, ax, ay, v[layer.down as int], rows_x, rows_y, h, inner, i, l);
    assert(gated_residual_bf16_batched(x, by_x, dx, rows_x, h)->args.len() == 3);
    assert(gated_residual_bf16_batched(y, by_y, dy, rows_y, h)->args.len() == 3);
    lemma_admitted_row(
        m,
        numbers(m, x),
        numbers(m, y),
        numbers(m, by_x),
        numbers(m, by_y),
        numbers(m, dx),
        numbers(m, dy),
        h as int,
        i,
        l,
    );
}

proof fn lemma_layers_row(
    m: Machine,
    w: VibeVoiceDiffusionHead,
    v: Seq<Term>,
    x: Term,
    y: Term,
    guide_x: Term,
    guide_y: Term,
    rows_x: u32,
    rows_y: u32,
    i: int,
    l: int,
    n: nat,
)
    requires
        3 * w.hidden <= u32::MAX,
        same_row(numbers(m, x), i, numbers(m, y), l, w.hidden as int),
        same_row(numbers(m, guide_x), i, numbers(m, guide_y), l, w.hidden as int),
    ensures
        same_row(
            numbers(m, layers_output(w, v, x, guide_x, rows_x, n)),
            i,
            numbers(m, layers_output(w, v, y, guide_y, rows_y, n)),
            l,
            w.hidden as int,
        ),
    decreases n,
{
    if n > 0 {
        let p = (n - 1) as nat;
        lemma_layers_row(m, w, v, x, y, guide_x, guide_y, rows_x, rows_y, i, l, p);
        lemma_layer_row(
            m,
            w.layers@[n - 1],
            v,
            layers_output(w, v, x, guide_x, rows_x, p),
            layers_output(w, v, y, guide_y, rows_y, p),
            guide_x,
            guide_y,
            rows_x,
            rows_y,
            w.hidden,
            w.intermediate,
            w.norm_eps,
            i,
            l,
        );
    }
}

/// Rows do not mix: what is predicted of a row depends on that row of the
/// latents, times and conditions alone, not on where it lies.
pub proof fn law_rows_are_predicted_by_themselves(
    m: Machine,
    w: VibeVoiceDiffusionHead,
    v: Seq<Term>,
    noisy_x: Term,
    noisy_y: Term,
    time_x: Term,
    time_y: Term,
    condition_x: Term,
    condition_y: Term,
    rows_x: u32,
    rows_y: u32,
    i: int,
    l: int,
)
    requires
        3 * w.hidden <= u32::MAX,
        same_row(numbers(m, noisy_x), i, numbers(m, noisy_y), l, w.latent as int),
        same_row(numbers(m, time_x), i, numbers(m, time_y), l, 256),
        same_row(numbers(m, condition_x), i, numbers(m, condition_y), l, w.hidden as int),
    ensures
        same_row(
            numbers(m, predicted(w, v, noisy_x, time_x, condition_x, rows_x)),
            i,
            numbers(m, predicted(w, v, noisy_y, time_y, condition_y, rows_y)),
            l,
            w.latent as int,
        ),
{
    broadcast use group_numbers;

    let h = w.hidden;
    let (cx, cy) = ((rows_x * h) as u32, (rows_y * h) as u32);
    let tx = rows_map(time_x, v[w.timestep_in as int], rows_x, h, 256);
    let ty = rows_map(time_y, v[w.timestep_in as int], rows_y, h, 256);
    lemma_map_row(m, time_x, time_y, v[w.timestep_in as int], rows_x, rows_y, h, 256, i, l);
    let sx = silu_act_bf16(tx, cx);
    let sy = silu_act_bf16(ty, cy);
    lemma_activated_row(m, tx, ty, cx, cy, h as int, i, l);
    let ox = rows_map(sx, v[w.timestep_out as int], rows_x, h, h);
    let oy = rows_map(sy, v[w.timestep_out as int], rows_y, h, h);
    lemma_map_row(m, sx, sy, v[w.timestep_out as int], rows_x, rows_y, h, h, i, l);
    let px = rows_map(condition_x, v[w.condition_projection as int], rows_x, h, h);
    let py = rows_map(condition_y, v[w.condition_projection as int], rows_y, h, h);
    lemma_map_row(
        m,
        condition_x,
        condition_y,
        v[w.condition_projection as int],
        rows_x,
        rows_y,
        h,
        h,
        i,
        l,
    );
    let ax = add_bf16(px, ox, cx);
    let ay = add_bf16(py, oy, cy);
    assert(ax->args.len() == 2 && ay->args.len() == 2);
    lemma_summed_row(
        m,
        numbers(m, px),
        numbers(m, py),
        numbers(m, ox),
        numbers(m, oy),
        h as int,
        i,
        l,
    );
    let gx = guidance(w, v, condition_x, time_x, rows_x);
    let gy = guidance(w, v, condition_y, time_y, rows_y);
    lemma_activated_row(m, ax, ay, cx, cy, h as int, i, l);
    let fx = rows_map(noisy_x, v[w.noisy_projection as int], rows_x, h, w.latent);
    let fy = rows_map(noisy_y, v[w.noisy_projection as int], rows_y, h, w.latent);
    lemma_map_row(
        m,
        noisy_x,
        noisy_y,
        v[w.noisy_projection as int],
        rows_x,
        rows_y,
        h,
        w.latent,
        i,
        l,
    );
    let n = w.layers@.len();
    let lx = layers_output(w, v, fx, gx, rows_x, n);
    let ly = layers_output(w, v, fy, gy, rows_y, n);
    lemma_layers_row(m, w, v, fx, fy, gx, gy, rows_x, rows_y, i, l, n);
    let wide = (2 * h) as u32;
    let bx = rows_map(gx, v[w.final_modulation as int], rows_x, wide, h);
    let by = rows_map(gy, v[w.final_modulation as int], rows_y, wide, h);
    lemma_map_row(m, gx, gy, v[w.final_modulation as int], rows_x, rows_y, wide, h, i, l);
    assert(h * 2 == wide);
    let nx = normed(lx, ones_bf16(h), rows_x, h, w.norm_eps);
    let ny = normed(ly, ones_bf16(h), rows_y, h, w.norm_eps);
    lemma_normed(m, lx, ly, ones_bf16(h), rows_x, rows_y, h, w.norm_eps, i, l);
    let ux = modulate_bf16_batched(nx, bx, rows_x, h, 2);
    let uy = modulate_bf16_batched(ny, by, rows_y, h, 2);
    lemma_modulated(m, nx, ny, bx, by, rows_x, rows_y, h, 2, i, l);
    lemma_map_row(m, ux, uy, v[w.final_projection as int], rows_x, rows_y, w.latent, h, i, l);
}

/// Guided prediction is two predictions: what it gives for the positive and the
/// negative condition is what each of them gives alone.
pub proof fn law_guided_predictions_are_those_of_each_condition(
    m: Machine,
    w: VibeVoiceDiffusionHead,
    v: Seq<Term>,
    noisy: Term,
    time: Term,
    positive: Term,
    negative: Term,
    j: int,
)
    requires
        3 * w.hidden <= u32::MAX,
        0 <= j < w.latent,
    ensures
        ({
            let pair = guided(w, v, noisy, time, positive, w.hidden, negative, w.hidden);
            &&& numbers(m, pair.0)(j) == numbers(m, predicted(w, v, noisy, time, positive, 1))(j)
            &&& numbers(m, pair.1)(j) == numbers(m, predicted(w, v, noisy, time, negative, 1))(j)
        }),
{
    broadcast use group_numbers;

    let n = join_rows(noisy, noisy, 1, w.latent, w.latent);
    let t = join_rows(time, time, 1, 256, 256);
    let c = join_rows(positive, negative, 1, w.hidden, w.hidden);
    assert(n->args.len() == 2 && t->args.len() == 2 && c->args.len() == 2);
    lemma_joined_rows(numbers(m, noisy), numbers(m, noisy), w.latent as int);
    lemma_joined_rows(numbers(m, time), numbers(m, time), 256);
    lemma_joined_rows(numbers(m, positive), numbers(m, negative), w.hidden as int);
    let both = predicted(w, v, n, t, c, 2);
    assert(copy_from(both, w.latent as usize, 0)->args.len() == 1);
    assert(copy_from(both, w.latent as usize, w.latent as usize)->args.len() == 1);
    law_rows_are_predicted_by_themselves(
        m,
        w,
        v,
        n,
        noisy,
        t,
        time,
        c,
        positive,
        2,
        1,
        0,
        0,
    );
    law_rows_are_predicted_by_themselves(
        m,
        w,
        v,
        n,
        noisy,
        t,
        time,
        c,
        negative,
        2,
        1,
        1,
        0,
    );
    lemma_in_row(
        numbers(m, both),
        0,
        numbers(m, predicted(w, v, noisy, time, positive, 1)),
        0,
        w.latent as int,
        j,
    );
    lemma_in_row(
        numbers(m, both),
        1,
        numbers(m, predicted(w, v, noisy, time, negative, 1)),
        0,
        w.latent as int,
        j,
    );
}

/// Nothing admitted changes nothing.
pub open spec fn admits_nothing(m: Machine) -> bool {
    forall|x: int, by: Seq<int>, c: int| #[trigger] (m.open_gate)(x, by, 0, c) == x
}

/// A layer of the head whose network gives nothing, at its end or where it
/// widens, leaves its rows as they are.
pub proof fn law_idle_layers_keep_their_rows(
    m: Machine,
    layer: DiffusionLayer,
    v: Seq<Term>,
    x: Term,
    guide: Term,
    rows: u32,
    h: u32,
    inner: u32,
    eps: Scalar,
)
    requires
        admits_nothing(m),
        silent(m, true, v[layer.down as int]) || (still(m) && silent(m, true, v[layer.up as int])),
    ensures
        alike(m, layer_output(layer, v, x, guide, rows, h, inner, eps), x),
{
    broadcast use group_numbers;

    reveal(layer_output);
    let by = rows_map(guide, v[layer.modulation as int], rows, (3 * h) as u32, h);
    let y = modulate_bf16_batched(normed(x, v[layer.norm as int], rows, h, eps), by, rows, h, 3);
    let gate = rows_map(y, v[layer.gate as int], rows, inner, h);
    let up = rows_map(y, v[layer.up as int], rows, inner, h);
    lemma_map_numbers(m, y, v[layer.up as int], rows, inner, h);
    let active = silu_bf16(gate, up, (rows * inner) as u32);
    assert(active->args.len() == 2);
    let down = rows_map(active, v[layer.down as int], rows, h, inner);
    lemma_map_numbers(m, active, v[layer.down as int], rows, h, inner);
    if !silent(m, true, v[layer.down as int]) {
        assert forall|j: int| #[trigger] numbers(m, active)(j) == 0 by {
            assert(numbers(m, up)(j) == 0);
        }
    }
    assert forall|j: int| #[trigger] numbers(m, down)(j) == 0 by {
        if !silent(m, true, v[layer.down as int]) {
            let row = piece(numbers(m, active), j / (h as int) * inner, inner as int);
            assert(zero_row(row));
        }
    }
    let t = gated_residual_bf16_batched(x, by, down, rows, h);
    assert(t->args.len() == 3);
    assert forall|j: int| #[trigger] numbers(m, t)(j) == numbers(m, x)(j) by {
        assert(numbers(m, down)(j) == 0);
    }
}

} // verus!
