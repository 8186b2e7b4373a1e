//! What decoding with a cache promises: tokens may come in pieces, and what is
//! cached stays.
use vstd::prelude::*;
use crate::device::{Scalar, Term};
use crate::device::kernels::Kernel;
use crate::device::meaning::{
    Machine, alike, blank, copied, group_origins, least, lemma_copy, lemma_mha, lemma_rms_norm, lemma_rope,
    made_from, neutral, nothing, numbers, piece, product_rows, silent, still, zero_row,
};
use crate::device::rows::{
    lemma_attended_row, lemma_biased_row, lemma_gated_row, lemma_in_row, lemma_increased_row,
    lemma_mapped_row, lemma_normed_row, lemma_product_row, lemma_rotated_row, lemma_within, same_row,
};
use crate::device::value::{mha_fused, rope_neox};
use crate::qwen3_tts::config::TalkerConfig;
use crate::qwen3_tts::layer::{
    LayerState, LayerValues, attended, attention_values, biased, countable, decoder_layer, fed_forward,
    halved, head_normed, keys, projected, queries, restored,
};
use crate::qwen3_tts::precision::{QwenDType, stream_gate, stream_norm};
use crate::qwen3_tts::stack::{after_layers, layer_step, stack_output};

verus! {

/// All that is computed with `rows` tokens from position `pos` on can be
/// counted.
pub open spec fn decodable<T: QwenDType>(c: TalkerConfig, rows: int, pos: int) -> bool {
    &&& 0 <= pos
    &&& countable::<T>(c, rows)
    &&& pos + rows <= u32::MAX
    &&& (pos + rows) * c.kv_dim() <= usize::MAX
}

proof fn lemma_fewer<T: QwenDType>(c: TalkerConfig, rows: int, pos: int, a: int)
    requires
        decodable::<T>(c, rows, pos),
        0 <= a <= rows,
    ensures
        decodable::<T>(c, a, pos),
        decodable::<T>(c, rows - a, pos + a),
{
    let h = c.hidden_size as int;
    let q = c.num_attention_heads as int;
    let k = c.num_key_value_heads as int;
    let i = c.intermediate_size as int;
    let kv = c.kv_dim();
    let qd = c.q_dim();
    assert(0 <= kv && 0 <= qd) by (nonlinear_arith)
        requires
            kv == c.num_key_value_heads * c.head_dim,
            qd == c.num_attention_heads * c.head_dim,
    ;
    lemma_le(a, rows, h);
    lemma_le(a, rows, q);
    lemma_le(a, rows, k);
    lemma_le(a, rows, i);
    lemma_le(a, rows, kv);
    lemma_le(a, rows, qd);
    lemma_le(rows - a, rows, h);
    lemma_le(rows - a, rows, q);
    lemma_le(rows - a, rows, k);
    lemma_le(rows - a, rows, i);
    lemma_le(rows - a, rows, kv);
    lemma_le(rows - a, rows, qd);
    lemma_le(pos + a, pos + rows, kv);
}

proof fn lemma_le(a: int, b: int, x: int)
    requires
        0 <= a <= b,
        0 <= x,
    ensures
        0 <= a * x <= b * x,
{
    assert(0 <= a * x <= b * x) by (nonlinear_arith)
        requires
            0 <= a <= b,
            0 <= x,
    ;
}

proof fn lemma_projected<T: QwenDType>(m: Machine, x: Term, weight: Term, rows: u32, n: u32, k: u32)
    ensures
        numbers(m, projected::<T>(x, weight, rows, n, k)) == product_rows(
            m,
            !T::is_f16(),
            numbers(m, x),
            numbers(m, weight),
            n as int,
            k as int,
        ),
{
    T::law_products(m, x, weight, rows, n, k);
}

/// A row is projected alike wherever it lies.
proof fn lemma_projected_row<T: QwenDType>(
    m: Machine,
    x: Term,
    y: Term,
    weight: Term,
    bias: Option<Term>,
    rows_x: u32,
    rows_y: u32,
    n: u32,
    k: u32,
    count_x: u32,
    count_y: u32,
    i: int,
    l: int,
)
    requires
        same_row(numbers(m, x), i, numbers(m, y), l, k as int),
    ensures
        same_row(
            numbers(
                m,
                halved::<T>(
                    biased::<T>(projected::<T>(x, weight, rows_x, n, k), bias, rows_x, n),
                    count_x,
                ),
            ),
            i,
            numbers(
                m,
                halved::<T>(
                    biased::<T>(projected::<T>(y, weight, rows_y, n, k), bias, rows_y, n),
                    count_y,
                ),
            ),
            l,
            n as int,
        ),
{
    let px = projected::<T>(x, weight, rows_x, n, k);
    let py = projected::<T>(y, weight, rows_y, n, k);
    lemma_projected::<T>(m, x, weight, rows_x, n, k);
    lemma_projected::<T>(m, y, weight, rows_y, n, k);
    lemma_product_row(
        m,
        !T::is_f16(),
        numbers(m, x),
        numbers(m, y),
        numbers(m, weight),
        n as int,
        k as int,
        i,
        l,
    );
    let bx = biased::<T>(px, bias, rows_x, n);
    let by = biased::<T>(py, bias, rows_y, n);
    if let Some(b) = bias {
        T::law_biases(m, px, b, rows_x, n);
        T::law_biases(m, py, b, rows_y, n);
        lemma_biased_row(m, numbers(m, px), numbers(m, py), numbers(m, b), n as int, i, l);
    }
    if !T::is_f16() {
        T::law_conversions(m, bx, count_x);
        T::law_conversions(m, by, count_y);
        lemma_mapped_row(
            m,
            Kernel::CopyBf16ToF16,
            numbers(m, bx),
            numbers(m, by),
            Seq::empty(),
            n as int,
            i,
            l,
        );
    }
}

/// A row is normalised per head and rotated to its position alike wherever it
/// lies.
proof fn lemma_turned_row(
    m: Machine,
    x: Term,
    y: Term,
    weight: Option<Term>,
    rows_x: u32,
    rows_y: u32,
    norm_rows_x: u32,
    norm_rows_y: u32,
    heads: u32,
    width: u32,
    eps: Scalar,
    theta: Scalar,
    pos_x: u32,
    pos_y: u32,
    i: int,
    l: int,
)
    requires
        same_row(numbers(m, x), i, numbers(m, y), l, heads * width),
        pos_x + i == pos_y + l,
    ensures
        same_row(
            numbers(
                m,
                rope_neox(
                    head_normed(x, weight, norm_rows_x, width, eps),
                    rows_x,
                    heads,
                    width,
                    pos_x,
                    theta,
                ),
            ),
            i,
            numbers(
                m,
                rope_neox(
                    head_normed(y, weight, norm_rows_y, width, eps),
                    rows_y,
                    heads,
                    width,
                    pos_y,
                    theta,
                ),
            ),
            l,
            heads * width,
        ),
{
    let nx = head_normed(x, weight, norm_rows_x, width, eps);
    let ny = head_normed(y, weight, norm_rows_y, width, eps);
    if let Some(w) = weight {
        lemma_rms_norm(m, x, w, norm_rows_x, width, eps);
        lemma_rms_norm(m, y, w, norm_rows_y, width, eps);
        lemma_normed_row(
            m,
            Kernel::RmsNorm,
            numbers(m, x),
            numbers(m, y),
            numbers(m, w),
            nothing(),
            heads as int,
            width as int,
            eps,
            i,
            l,
        );
    }
    lemma_rope(m, nx, rows_x, heads, width, pos_x, theta);
    lemma_rope(m, ny, rows_y, heads, width, pos_y, theta);
    lemma_rotated_row(
        m,
        numbers(m, nx),
        numbers(m, ny),
        None,
        heads as int,
        width as int,
        pos_x as int,
        pos_y as int,
        theta,
        i,
        l,
    );
}

/// The normalised stream.
spec fn stream<T: QwenDType>(w: LayerValues, hidden: Term, c: TalkerConfig, rows: u32) -> Term {
    T::rms_norm_f32in_value(
        hidden,
        w.input_norm,
        rows,
        c.hidden_size as u32,
        Scalar::Double(c.rms_norm_eps),
    )
}

/// Query, key and value of a token depend on its row and its position alone.
proof fn lemma_inputs_row<T: QwenDType>(
    m: Machine,
    w: LayerValues,
    c: TalkerConfig,
    x: Term,
    y: Term,
    rows_x: u32,
    rows_y: u32,
    pos_x: usize,
    pos_y: usize,
    i: int,
    l: int,
)
    requires
        decodable::<T>(c, rows_x as int, pos_x as int),
        decodable::<T>(c, rows_y as int, pos_y as int),
        pos_x + i == pos_y + l,
        same_row(numbers(m, x), i, numbers(m, y), l, c.hidden_size as int),
    ensures
        ({
            let nx = stream::<T>(w, x, c, rows_x);
            let ny = stream::<T>(w, y, c, rows_y);
            &&& same_row(
                numbers(m, queries::<T>(w, nx, c, rows_x, pos_x)),
                i,
                numbers(m, queries::<T>(w, ny, c, rows_y, pos_y)),
                l,
                c.q_dim(),
            )
            &&& same_row(
                numbers(m, keys::<T>(w, nx, c, rows_x, pos_x)),
                i,
                numbers(m, keys::<T>(w, ny, c, rows_y, pos_y)),
                l,
                c.kv_dim(),
            )
            &&& same_row(
                numbers(m, attention_values::<T>(w, nx, c, rows_x)),
                i,
                numbers(m, attention_values::<T>(w, ny, c, rows_y)),
                l,
                c.kv_dim(),
            )
        }),
{
    let eps = Scalar::Double(c.rms_norm_eps);
    let theta = Scalar::Double(c.rope_theta);
    let h = c.hidden_size as u32;
    let q = c.q_dim() as u32;
    let kv = c.kv_dim() as u32;
    let nx = stream::<T>(w, x, c, rows_x);
    let ny = stream::<T>(w, y, c, rows_y);
    T::law_norms(m, x, w.input_norm, rows_x, h, eps);
    T::law_norms(m, y, w.input_norm, rows_y, h, eps);
    assert(1 * h == h);
    lemma_normed_row(
        m,
        stream_norm(T::is_f16()),
        numbers(m, x),
        numbers(m, y),
        numbers(m, w.input_norm),
        nothing(),
        1,
        h as int,
        eps,
        i,
        l,
    );
    let (cqx, cqy) = ((rows_x * q) as u32, (rows_y * q) as u32);
    let (ckx, cky) = ((rows_x * kv) as u32, (rows_y * kv) as u32);
    lemma_projected_row::<T>(m, nx, ny, w.q_proj, w.q_bias, rows_x, rows_y, q, h, cqx, cqy, i, l);
    lemma_projected_row::<T>(m, nx, ny, w.k_proj, w.k_bias, rows_x, rows_y, kv, h, ckx, cky, i, l);
    lemma_projected_row::<T>(m, nx, ny, w.v_proj, w.v_bias, rows_x, rows_y, kv, h, ckx, cky, i, l);
    lemma_turned_row(
        m,
        halved::<T>(
            biased::<T>(projected::<T>(nx, w.q_proj, rows_x, q, h), w.q_bias, rows_x, q),
            cqx,
        ),
        halved::<T>(
            biased::<T>(projected::<T>(ny, w.q_proj, rows_y, q, h), w.q_bias, rows_y, q),
            cqy,
        ),
        w.q_norm,
        rows_x,
        rows_y,
        (rows_x * c.num_attention_heads) as u32,
        (rows_y * c.num_attention_heads) as u32,
        c.num_attention_heads as u32,
        c.head_dim as u32,
        eps,
        theta,
        pos_x as u32,
        pos_y as u32,
        i,
        l,
    );
    lemma_turned_row(
        m,
        halved::<T>(
            biased::<T>(projected::<T>(nx, w.k_proj, rows_x, kv, h), w.k_bias, rows_x, kv),
            ckx,
        ),
        halved::<T>(
            biased::<T>(projected::<T>(ny, w.k_proj, rows_y, kv, h), w.k_bias, rows_y, kv),
            cky,
        ),
        w.k_norm,
        rows_x,
        rows_y,
        (rows_x * c.num_key_value_heads) as u32,
        (rows_y * c.num_key_value_heads) as u32,
        c.num_key_value_heads as u32,
        c.head_dim as u32,
        eps,
        theta,
        pos_x as u32,
        pos_y as u32,
        i,
        l,
    );
}

/// What lies in a cache after a step.
proof fn lemma_cache<T: QwenDType>(
    m: Machine,
    w: LayerValues,
    s: LayerState,
    c: TalkerConfig,
    rows: u32,
    pos: usize,
)
    requires
        decodable::<T>(c, rows as int, pos as int),
    ensures
        ({
            let normed = stream::<T>(w, s.hidden, c, rows);
            let after = attended::<T>(w, s, c, rows, pos);
            let n = rows * c.kv_dim();
            let at = pos * c.kv_dim();
            &&& numbers(m, after.k) == copied(
                numbers(m, keys::<T>(w, normed, c, rows, pos)),
                numbers(m, s.k),
                n,
                at,
            )
            &&& numbers(m, after.v) == copied(
                numbers(m, attention_values::<T>(w, normed, c, rows)),
                numbers(m, s.v),
                n,
                at,
            )
        }),
{
    let normed = stream::<T>(w, s.hidden, c, rows);
    let count = (rows * c.kv_dim()) as u32;
    let offset = (pos * c.kv_dim()) as usize;
    assert(0 <= c.kv_dim()) by (nonlinear_arith)
        requires
            c.kv_dim() == c.num_key_value_heads * c.head_dim,
    ;
    lemma_le(pos as int, pos + rows, c.kv_dim());
    lemma_le(0, rows as int, c.kv_dim());
    lemma_copy(m, keys::<T>(w, normed, c, rows, pos), s.k, count, offset);
    lemma_copy(m, attention_values::<T>(w, normed, c, rows), s.v, count, offset);
}

/// What a layer makes of a token depends on its row, its position and what is
/// cached up to it.
proof fn lemma_layer_row<T: QwenDType>(
    m: Machine,
    w: LayerValues,
    c: TalkerConfig,
    sx: LayerState,
    sy: LayerState,
    rows_x: u32,
    rows_y: u32,
    pos_x: usize,
    pos_y: usize,
    i: int,
    l: int,
)
    requires
        decodable::<T>(c, rows_x as int, pos_x as int),
        decodable::<T>(c, rows_y as int, pos_y as int),
        pos_x + i == pos_y + l,
        0 <= i < rows_x,
        0 <= l < rows_y,
        same_row(numbers(m, sx.hidden), i, numbers(m, sy.hidden), l, c.hidden_size as int),
        ({
            let ax = attended::<T>(w, sx, c, rows_x, pos_x);
            let ay = attended::<T>(w, sy, c, rows_y, pos_y);
            &&& forall|e: int|
                0 <= e < (pos_x + i + 1) * c.kv_dim() ==> #[trigger] numbers(m, ax.k)(e) == numbers(
                    m,
                    ay.k,
                )(e)
            &&& forall|e: int|
                0 <= e < (pos_x + i + 1) * c.kv_dim() ==> #[trigger] numbers(m, ax.v)(e) == numbers(
                    m,
                    ay.v,
                )(e)
        }),
    ensures
        same_row(
            numbers(m, decoder_layer::<T>(w, sx, c, rows_x, pos_x).hidden),
            i,
            numbers(m, decoder_layer::<T>(w, sy, c, rows_y, pos_y).hidden),
            l,
            c.hidden_size as int,
        ),
{
    reveal(decoder_layer);
    let h = c.hidden_size as u32;
    let q = c.q_dim() as u32;
    let ax = attended::<T>(w, sx, c, rows_x, pos_x);
    let ay = attended::<T>(w, sy, c, rows_y, pos_y);
    let nx = stream::<T>(w, sx.hidden, c, rows_x);
    let ny = stream::<T>(w, sy.hidden, c, rows_y);
    let qx = queries::<T>(w, nx, c, rows_x, pos_x);
    let qy = queries::<T>(w, ny, c, rows_y, pos_y);
    let width = c.head_dim as u32;
    let heads = c.num_attention_heads as u32;
    let kv_heads = c.num_key_value_heads as u32;
    let (tx, ty) = ((pos_x + rows_x) as u32, (pos_y + rows_y) as u32);
    let ox = mha_fused(
        qx,
        ax.k,
        ax.v,
        width,
        heads,
        kv_heads,
        rows_x,
        tx,
        pos_x as u32,
    );
    let oy = mha_fused(
        qy,
        ay.k,
        ay.v,
        width,
        heads,
        kv_heads,
        rows_y,
        ty,
        pos_y as u32,
    );
    lemma_inputs_row::<T>(m, w, c, sx.hidden, sy.hidden, rows_x, rows_y, pos_x, pos_y, i, l);
    lemma_mha(m, qx, ax.k, ax.v, width, heads, kv_heads, rows_x, tx, pos_x as u32);
    lemma_mha(m, qy, ay.k, ay.v, width, heads, kv_heads, rows_y, ty, pos_y as u32);
    lemma_attended_row(
        m,
        numbers(m, qx),
        numbers(m, qy),
        numbers(m, ax.k),
        numbers(m, ay.k),
        numbers(m, ax.v),
        numbers(m, ay.v),
        heads as int,
        kv_heads as int,
        width as int,
        tx as int,
        ty as int,
        pos_x as int,
        pos_y as int,
        i,
        l,
    );
    let (cx, cy) = ((rows_x * c.q_dim()) as u32, (rows_y * c.q_dim()) as u32);
    let rx = restored::<T>(ox, cx);
    let ry = restored::<T>(oy, cy);
    if !T::is_f16() {
        T::law_conversions(m, ox, cx);
        T::law_conversions(m, oy, cy);
        lemma_mapped_row(
            m,
            Kernel::CopyF16ToBf16,
            numbers(m, ox),
            numbers(m, oy),
            Seq::empty(),
            c.q_dim(),
            i,
            l,
        );
    }
    let dx = projected::<T>(rx, w.o_proj, rows_x, h, q);
    let dy = projected::<T>(ry, w.o_proj, rows_y, h, q);
    lemma_projected::<T>(m, rx, w.o_proj, rows_x, h, q);
    lemma_projected::<T>(m, ry, w.o_proj, rows_y, h, q);
    lemma_product_row(
        m,
        !T::is_f16(),
        numbers(m, rx),
        numbers(m, ry),
        numbers(m, w.o_proj),
        h as int,
        q as int,
        i,
        l,
    );
    let (hx, hy) = ((rows_x * h) as u32, (rows_y * h) as u32);
    T::law_residuals(m, sx.hidden, dx, hx);
    T::law_residuals(m, sy.hidden, dy, hy);
    lemma_increased_row(
        m,
        numbers(m, sx.hidden),
        numbers(m, sy.hidden),
        numbers(m, dx),
        numbers(m, dy),
        h as int,
        rows_x as int,
        rows_y as int,
        i,
        l,
    );
    lemma_fed_row::<T>(m, w, c, ax.hidden, ay.hidden, rows_x, rows_y, i, l);
}

/// What the feed-forward network makes of a token depends on its row alone.
proof fn lemma_fed_row<T: QwenDType>(
    m: Machine,
    w: LayerValues,
    c: TalkerConfig,
    x: Term,
    y: Term,
    rows_x: u32,
    rows_y: u32,
    i: int,
    l: int,
)
    requires
        countable::<T>(c, rows_x as int),
        countable::<T>(c, rows_y as int),
        0 <= i < rows_x,
        0 <= l < rows_y,
        same_row(numbers(m, x), i, numbers(m, y), l, c.hidden_size as int),
    ensures
        same_row(
            numbers(m, fed_forward::<T>(w, x, c, rows_x)),
            i,
            numbers(m, fed_forward::<T>(w, y, c, rows_y)),
            l,
            c.hidden_size as int,
        ),
{
    let eps = Scalar::Double(c.rms_norm_eps);
    let h = c.hidden_size as u32;
    let n = c.intermediate_size as u32;
    let brain = !T::is_f16();
    let nx = T::rms_norm_f32in_value(x, w.post_attention_norm, rows_x, h, eps);
    let ny = T::rms_norm_f32in_value(y, w.post_attention_norm, rows_y, h, eps);
    T::law_norms(m, x, w.post_attention_norm, rows_x, h, eps);
    T::law_norms(m, y, w.post_attention_norm, rows_y, h, eps);
    assert(1 * h == h);
    lemma_normed_row(
        m,
        stream_norm(T::is_f16()),
        numbers(m, x),
        numbers(m, y),
        numbers(m, w.post_attention_norm),
        nothing(),
        1,
        h as int,
        eps,
        i,
        l,
    );
    T::law_products(m, nx, w.gate_proj, rows_x, n, h);
    T::law_products(m, ny, w.gate_proj, rows_y, n, h);
    T::law_products(m, nx, w.up_proj, rows_x, n, h);
    T::law_products(m, ny, w.up_proj, rows_y, n, h);
    T::law_dual_products(m, nx, w.gate_proj, w.up_proj, n, h);
    T::law_dual_products(m, ny, w.gate_proj, w.up_proj, n, h);
    let gx = if rows_x == 1 {
        T::gemv_dual_out_a_value(nx, w.gate_proj, w.up_proj, n, h)
    } else {
        T::matmul_value(nx, w.gate_proj, rows_x, n, h)
    };
    let gy = if rows_y == 1 {
        T::gemv_dual_out_a_value(ny, w.gate_proj, w.up_proj, n, h)
    } else {
        T::matmul_value(ny, w.gate_proj, rows_y, n, h)
    };
    let ux = if rows_x == 1 {
        T::gemv_dual_out_b_value(nx, w.gate_proj, w.up_proj, n, h)
    } else {
        T::matmul_value(nx, w.up_proj, rows_x, n, h)
    };
    let uy = if rows_y == 1 {
        T::gemv_dual_out_b_value(ny, w.gate_proj, w.up_proj, n, h)
    } else {
        T::matmul_value(ny, w.up_proj, rows_y, n, h)
    };
    let (mx, my) = (numbers(m, nx), numbers(m, ny));
    lemma_product_row(m, brain, mx, my, numbers(m, w.gate_proj), n as int, h as int, i, l);
    lemma_product_row(m, brain, mx, my, numbers(m, w.up_proj), n as int, h as int, i, l);
    let (cx, cy) = ((rows_x * n) as u32, (rows_y * n) as u32);
    let ax = T::silu_value(gx, ux, cx);
    let ay = T::silu_value(gy, uy, cy);
    T::law_gates(m, gx, ux, cx);
    T::law_gates(m, gy, uy, cy);
    lemma_gated_row(
        m,
        stream_gate(T::is_f16()),
        numbers(m, ux),
        numbers(m, uy),
        numbers(m, gx),
        numbers(m, gy),
        n as int,
        i,
        l,
    );
    let dx = projected::<T>(ax, w.down_proj, rows_x, h, n);
    let dy = projected::<T>(ay, w.down_proj, rows_y, h, n);
    lemma_projected::<T>(m, ax, w.down_proj, rows_x, h, n);
    lemma_projected::<T>(m, ay, w.down_proj, rows_y, h, n);
    lemma_product_row(
        m,
        brain,
        numbers(m, ax),
        numbers(m, ay),
        numbers(m, w.down_proj),
        h as int,
        n as int,
        i,
        l,
    );
    let (hx, hy) = ((rows_x * h) as u32, (rows_y * h) as u32);
    T::law_residuals(m, x, dx, hx);
    T::law_residuals(m, y, dy, hy);
    lemma_increased_row(
        m,
        numbers(m, x),
        numbers(m, y),
        numbers(m, dx),
        numbers(m, dy),
        h as int,
        rows_x as int,
        rows_y as int,
        i,
        l,
    );
}

/// A step leaves what is cached: the rows before the new tokens, and whatever
/// lies behind them, are as they were.
pub proof fn law_cached_rows_stay<T: QwenDType>(
    m: Machine,
    w: LayerValues,
    s: LayerState,
    c: TalkerConfig,
    rows: u32,
    pos: usize,
    e: int,
)
    requires
        decodable::<T>(c, rows as int, pos as int),
        0 <= e < pos * c.kv_dim() || (pos + rows) * c.kv_dim() <= e,
    ensures
        numbers(m, decoder_layer::<T>(w, s, c, rows, pos).k)(e) == numbers(m, s.k)(e),
        numbers(m, decoder_layer::<T>(w, s, c, rows, pos).v)(e) == numbers(m, s.v)(e),
{
    reveal(decoder_layer);
    lemma_cache::<T>(m, w, s, c, rows, pos);
    assert((pos + rows) * c.kv_dim() == pos * c.kv_dim() + rows * c.kv_dim()) by (nonlinear_arith);
}

/// The first `a` rows of `whole` are `first`, the others up to `n` are `rest`.
pub open spec fn in_pieces(
    m: Machine,
    whole: Term,
    first: Term,
    rest: Term,
    width: int,
    n: int,
    a: int,
) -> bool {
    &&& forall|i: int|
        0 <= i < a ==> #[trigger] same_row(numbers(m, first), i, numbers(m, whole), i, width)
    &&& forall|i: int|
        a <= i < n ==> #[trigger] same_row(numbers(m, rest), i - a, numbers(m, whole), i, width)
}

/// What is cached of a token at a position depends on its row alone.
proof fn lemma_cached_token<T: QwenDType>(
    m: Machine,
    w: LayerValues,
    c: TalkerConfig,
    sx: LayerState,
    sy: LayerState,
    rows_x: u32,
    rows_y: u32,
    pos_x: usize,
    pos_y: usize,
    i: int,
    l: int,
    col: int,
)
    requires
        decodable::<T>(c, rows_x as int, pos_x as int),
        decodable::<T>(c, rows_y as int, pos_y as int),
        pos_x + i == pos_y + l,
        0 <= i < rows_x,
        0 <= l < rows_y,
        0 <= col < c.kv_dim(),
        same_row(numbers(m, sx.hidden), i, numbers(m, sy.hidden), l, c.hidden_size as int),
    ensures
        ({
            let e = (pos_x + i) * c.kv_dim() + col;
            let ax = attended::<T>(w, sx, c, rows_x, pos_x);
            let ay = attended::<T>(w, sy, c, rows_y, pos_y);
            numbers(m, ax.k)(e) == numbers(m, ay.k)(e) && numbers(m, ax.v)(e) == numbers(m, ay.v)(e)
        }),
{
    let kv = c.kv_dim();
    let e = (pos_x + i) * kv + col;
    lemma_inputs_row::<T>(m, w, c, sx.hidden, sy.hidden, rows_x, rows_y, pos_x, pos_y, i, l);
    lemma_cache::<T>(m, w, sx, c, rows_x, pos_x);
    lemma_cache::<T>(m, w, sy, c, rows_y, pos_y);
    let nx = stream::<T>(w, sx.hidden, c, rows_x);
    let ny = stream::<T>(w, sy.hidden, c, rows_y);
    lemma_in_row(
        numbers(m, keys::<T>(w, nx, c, rows_x, pos_x)),
        i,
        numbers(m, keys::<T>(w, ny, c, rows_y, pos_y)),
        l,
        kv,
        col,
    );
    lemma_in_row(
        numbers(m, attention_values::<T>(w, nx, c, rows_x)),
        i,
        numbers(m, attention_values::<T>(w, ny, c, rows_y)),
        l,
        kv,
        col,
    );
    assert((pos_x + i) * kv == pos_x * kv + i * kv) by (nonlinear_arith);
    assert((pos_y + l) * kv == pos_y * kv + l * kv) by (nonlinear_arith);
    lemma_within(i, rows_x as int, kv, col);
    lemma_within(l, rows_y as int, kv, col);
}

/// What is cached of a token when it comes in the first piece, in the second,
/// or with all others.
proof fn lemma_cached_pieces<T: QwenDType>(
    m: Machine,
    w: LayerValues,
    c: TalkerConfig,
    whole: LayerState,
    first: Term,
    rest: Term,
    n: u32,
    a: u32,
    pos: usize,
    e: int,
)
    requires
        0 < a < n,
        decodable::<T>(c, n as int, pos as int),
        in_pieces(m, whole.hidden, first, rest, c.hidden_size as int, n as int, a as int),
        0 <= e,
    ensures
        ({
            let all = attended::<T>(w, whole, c, n, pos);
            let one = attended::<T>(w, LayerState { hidden: first, ..whole }, c, a, pos);
            let two = attended::<T>(
                w,
                LayerState { hidden: rest, k: one.k, v: one.v },
                c,
                (n - a) as u32,
                (pos + a) as usize,
            );
            &&& numbers(m, two.k)(e) == numbers(m, all.k)(e)
            &&& numbers(m, two.v)(e) == numbers(m, all.v)(e)
            &&& e < (pos + a) * c.kv_dim() ==> numbers(m, one.k)(e) == numbers(m, all.k)(e)
                && numbers(m, one.v)(e) == numbers(m, all.v)(e)
        }),
{
    let kv = c.kv_dim();
    let h = c.hidden_size as int;
    let s1 = LayerState { hidden: first, ..whole };
    let one = attended::<T>(w, s1, c, a, pos);
    let s2 = LayerState { hidden: rest, k: one.k, v: one.v };
    let (b, mid) = ((n - a) as u32, (pos + a) as usize);
    lemma_fewer::<T>(c, n as int, pos as int, a as int);
    lemma_cache::<T>(m, w, whole, c, n, pos);
    lemma_cache::<T>(m, w, s1, c, a, pos);
    lemma_cache::<T>(m, w, s2, c, b, mid);
    assert(0 <= kv) by (nonlinear_arith)
        requires
            kv == c.num_key_value_heads * c.head_dim,
    ;
    assert((pos + a) * kv == pos * kv + a * kv) by (nonlinear_arith);
    assert((pos + n) * kv == pos * kv + n * kv) by (nonlinear_arith);
    assert(n * kv == a * kv + b * kv) by (nonlinear_arith)
        requires
            n == a + b,
    ;
    lemma_le(0, a as int, kv);
    lemma_le(0, b as int, kv);
    if pos * kv <= e < (pos + n) * kv {
        assert(kv > 0) by (nonlinear_arith)
            requires
                pos * kv <= e < (pos + n) * kv,
                0 <= kv,
        ;
        let r = e / kv;
        let col = e % kv;
        vstd::arithmetic::div_mod::lemma_fundamental_div_mod(e, kv);
        assert(e == r * kv + col) by (nonlinear_arith)
            requires
                e == kv * r + col,
        ;
        let i = r - pos;
        assert(0 <= i < n && (i < a <==> e < (pos + a) * kv)) by (nonlinear_arith)
            requires
                pos * kv <= e < (pos + n) * kv,
                e == r * kv + col,
                0 <= col < kv,
                i == r - pos,
        ;
        if i < a {
            assert(same_row(numbers(m, first), i, numbers(m, whole.hidden), i, h));
            lemma_cached_token::<T>(m, w, c, s1, whole, a, n, pos, pos, i, i, col);
        } else {
            assert(same_row(numbers(m, rest), i - a, numbers(m, whole.hidden), i, h));
            lemma_cached_token::<T>(m, w, c, s2, whole, b, n, mid, pos, i - a, i, col);
        }
    }
}

/// Tokens may come in pieces: a layer that is handed `a` tokens and then the
/// others leaves the same cache as one that is handed all at once, and makes the
/// same rows of them.
pub proof fn law_layers_take_tokens_in_pieces<T: QwenDType>(
    m: Machine,
    w: LayerValues,
    c: TalkerConfig,
    whole: LayerState,
    first: Term,
    rest: Term,
    n: u32,
    a: u32,
    pos: usize,
)
    requires
        0 < a < n,
        decodable::<T>(c, n as int, pos as int),
        in_pieces(m, whole.hidden, first, rest, c.hidden_size as int, n as int, a as int),
    ensures
        ({
            let all = decoder_layer::<T>(w, whole, c, n, pos);
            let one = decoder_layer::<T>(w, LayerState { hidden: first, ..whole }, c, a, pos);
            let two = decoder_layer::<T>(
                w,
                LayerState { hidden: rest, k: one.k, v: one.v },
                c,
                (n - a) as u32,
                (pos + a) as usize,
            );
            &&& forall|e: int| 0 <= e ==> #[trigger] numbers(m, two.k)(e) == numbers(m, all.k)(e)
            &&& forall|e: int| 0 <= e ==> #[trigger] numbers(m, two.v)(e) == numbers(m, all.v)(e)
            &&& in_pieces(
                m,
                all.hidden,
                one.hidden,
                two.hidden,
                c.hidden_size as int,
                n as int,
                a as int,
            )
        }),
{
    reveal(decoder_layer);
    let h = c.hidden_size as int;
    let kv = c.kv_dim();
    let s1 = LayerState { hidden: first, ..whole };
    let all = decoder_layer::<T>(w, whole, c, n, pos);
    let one = decoder_layer::<T>(w, s1, c, a, pos);
    let s2 = LayerState { hidden: rest, k: one.k, v: one.v };
    let (b, mid) = ((n - a) as u32, (pos + a) as usize);
    let two = decoder_layer::<T>(w, s2, c, b, mid);
    lemma_fewer::<T>(c, n as int, pos as int, a as int);
    assert(0 <= kv) by (nonlinear_arith)
        requires
            kv == c.num_key_value_heads * c.head_dim,
    ;
    assert forall|e: int| 0 <= e implies #[trigger] numbers(m, two.k)(e) == numbers(m, all.k)(e) by {
        lemma_cached_pieces::<T>(m, w, c, whole, first, rest, n, a, pos, e);
    }
    assert forall|e: int| 0 <= e implies #[trigger] numbers(m, two.v)(e) == numbers(m, all.v)(e) by {
        lemma_cached_pieces::<T>(m, w, c, whole, first, rest, n, a, pos, e);
    }
    assert forall|i: int| 0 <= i < a implies #[trigger] same_row(
        numbers(m, one.hidden),
        i,
        numbers(m, all.hidden),
        i,
        h,
    ) by {
        assert(same_row(numbers(m, first), i, numbers(m, whole.hidden), i, h));
        lemma_le(pos + i + 1, pos + a, kv);
        assert forall|e: int|
            0 <= e < (pos + i + 1) * kv implies #[trigger] numbers(m, one.k)(e) == numbers(m, all.k)(e)
            by {
            lemma_cached_pieces::<T>(m, w, c, whole, first, rest, n, a, pos, e);
        }
        assert forall|e: int|
            0 <= e < (pos + i + 1) * kv implies #[trigger] numbers(m, one.v)(e) == numbers(m, all.v)(e)
            by {
            lemma_cached_pieces::<T>(m, w, c, whole, first, rest, n, a, pos, e);
        }
        lemma_layer_row::<T>(m, w, c, s1, whole, a, n, pos, pos, i, i);
    }
    assert forall|i: int| a <= i < n implies #[trigger] same_row(
        numbers(m, two.hidden),
        i - a,
        numbers(m, all.hidden),
        i,
        h,
    ) by {
        assert(same_row(numbers(m, rest), i - a, numbers(m, whole.hidden), i, h));
        lemma_layer_row::<T>(m, w, c, s2, whole, b, n, mid, pos, i - a, i);
    }
}

/// What every layer has cached after a step.
pub open spec fn caches_after<T: QwenDType>(
    weights: Seq<LayerValues>,
    caches: Seq<(Term, Term)>,
    hidden: Term,
    c: TalkerConfig,
    rows: u32,
    pos: usize,
) -> Seq<(Term, Term)> {
    Seq::new(
        weights.len(),
        |j: int|
            {
                let step = layer_step::<T>(weights, caches, hidden, c, rows, pos, j as nat);
                (step.k, step.v)
            },
    )
}

proof fn lemma_stack_in_pieces<T: QwenDType>(
    m: Machine,
    weights: Seq<LayerValues>,
    caches: Seq<(Term, Term)>,
    c: TalkerConfig,
    whole: Term,
    first: Term,
    rest: Term,
    n: u32,
    a: u32,
    pos: usize,
    layers: nat,
)
    requires
        0 < a < n,
        layers <= weights.len(),
        decodable::<T>(c, n as int, pos as int),
        in_pieces(m, whole, first, rest, c.hidden_size as int, n as int, a as int),
    ensures
        in_pieces(
            m,
            after_layers::<T>(weights, caches, whole, c, n, pos, layers),
            after_layers::<T>(weights, caches, first, c, a, pos, layers),
            after_layers::<T>(
                weights,
                caches_after::<T>(weights, caches, first, c, a, pos),
                rest,
                c,
                (n - a) as u32,
                (pos + a) as usize,
                layers,
            ),
            c.hidden_size as int,
            n as int,
            a as int,
        ),
    decreases layers,
{
    if layers > 0 {
        let j = (layers - 1) as nat;
        let later = caches_after::<T>(weights, caches, first, c, a, pos);
        let (b, mid) = ((n - a) as u32, (pos + a) as usize);
        lemma_stack_in_pieces::<T>(m, weights, caches, c, whole, first, rest, n, a, pos, j);
        let state = LayerState {
            hidden: after_layers::<T>(weights, caches, whole, c, n, pos, j),
            k: caches[j as int].0,
            v: caches[j as int].1,
        };
        law_layers_take_tokens_in_pieces::<T>(
            m,
            weights[j as int],
            c,
            state,
            after_layers::<T>(weights, caches, first, c, a, pos, j),
            after_layers::<T>(weights, later, rest, c, b, mid, j),
            n,
            a,
            pos,
        );
    }
}

/// Tokens may come in pieces: a stack that is handed `a` tokens and then the
/// others, over what the first left in the caches, gives the same rows as one
/// that is handed all at once.
pub proof fn law_stacks_take_tokens_in_pieces<T: QwenDType>(
    m: Machine,
    weights: Seq<LayerValues>,
    final_norm: Option<Term>,
    caches: Seq<(Term, Term)>,
    c: TalkerConfig,
    whole: Term,
    first: Term,
    rest: Term,
    n: u32,
    a: u32,
    pos: usize,
)
    requires
        0 < a < n,
        decodable::<T>(c, n as int, pos as int),
        in_pieces(m, whole, first, rest, c.hidden_size as int, n as int, a as int),
    ensures
        in_pieces(
            m,
            stack_output::<T>(weights, final_norm, caches, whole, c, n, pos),
            stack_output::<T>(weights, final_norm, caches, first, c, a, pos),
            stack_output::<T>(
                weights,
                final_norm,
                caches_after::<T>(weights, caches, first, c, a, pos),
                rest,
                c,
                (n - a) as u32,
                (pos + a) as usize,
            ),
            c.hidden_size as int,
            n as int,
            a as int,
        ),
{
    let layers = weights.len();
    let later = caches_after::<T>(weights, caches, first, c, a, pos);
    let (b, mid) = ((n - a) as u32, (pos + a) as usize);
    let h = c.hidden_size as u32;
    let eps = Scalar::Double(c.rms_norm_eps);
    lemma_stack_in_pieces::<T>(m, weights, caches, c, whole, first, rest, n, a, pos, layers);
    let x = after_layers::<T>(weights, caches, whole, c, n, pos, layers);
    let y = after_layers::<T>(weights, caches, first, c, a, pos, layers);
    let z = after_layers::<T>(weights, later, rest, c, b, mid, layers);
    if let Some(weight) = final_norm {
        T::law_norms(m, x, weight, n, h, eps);
        T::law_norms(m, y, weight, a, h, eps);
        T::law_norms(m, z, weight, b, h, eps);
        let (ox, oy, oz) = (
            T::rms_norm_f32in_value(x, weight, n, h, eps),
            T::rms_norm_f32in_value(y, weight, a, h, eps),
            T::rms_norm_f32in_value(z, weight, b, h, eps),
        );
        let kernel = stream_norm(T::is_f16());
        assert(1 * h == h);
        assert forall|i: int| 0 <= i < a implies #[trigger] same_row(
            numbers(m, oy),
            i,
            numbers(m, ox),
            i,
            h as int,
        ) by {
            assert(same_row(numbers(m, y), i, numbers(m, x), i, h as int));
            lemma_normed_row(
                m,
                kernel,
                numbers(m, y),
                numbers(m, x),
                numbers(m, weight),
                nothing(),
                1,
                h as int,
                eps,
                i,
                i,
            );
        }
        assert forall|i: int| a <= i < n implies #[trigger] same_row(
            numbers(m, oz),
            i - a,
            numbers(m, ox),
            i,
            h as int,
        ) by {
            assert(same_row(numbers(m, z), i - a, numbers(m, x), i, h as int));
            lemma_normed_row(
                m,
                kernel,
                numbers(m, z),
                numbers(m, x),
                numbers(m, weight),
                nothing(),
                1,
                h as int,
                eps,
                i - a,
                i,
            );
        }
    }
}

/// A step caches every token in its own row: the key and the value of token `i`
/// lie in row `pos + i`.
pub proof fn law_tokens_are_cached_in_their_rows<T: QwenDType>(
    m: Machine,
    w: LayerValues,
    s: LayerState,
    c: TalkerConfig,
    rows: u32,
    pos: usize,
    i: int,
    col: int,
)
    requires
        decodable::<T>(c, rows as int, pos as int),
        0 <= i < rows,
        0 <= col < c.kv_dim(),
    ensures
        ({
            let normed = T::rms_norm_f32in_value(
                s.hidden,
                w.input_norm,
                rows,
                c.hidden_size as u32,
                Scalar::Double(c.rms_norm_eps),
            );
            let after = decoder_layer::<T>(w, s, c, rows, pos);
            let e = (pos + i) * c.kv_dim() + col;
            &&& numbers(m, after.k)(e) == numbers(m, keys::<T>(w, normed, c, rows, pos))(
                i * c.kv_dim() + col,
            )
            &&& numbers(m, after.v)(e) == numbers(m, attention_values::<T>(w, normed, c, rows))(
                i * c.kv_dim() + col,
            )
        }),
{
    reveal(decoder_layer);
    let kv = c.kv_dim();
    lemma_cache::<T>(m, w, s, c, rows, pos);
    lemma_within(i, rows as int, kv, col);
    assert((pos + i) * kv == pos * kv + i * kv) by (nonlinear_arith);
}

/// What an optional weight is made from goes into `t`.
pub open spec fn uses_optional(t: Term, weight: Option<Term>) -> bool {
    match weight {
        Some(w) => made_from(t, w),
        None => true,
    }
}

/// All weights of a layer go into `t`.
pub open spec fn uses_layer(t: Term, w: LayerValues) -> bool {
    &&& made_from(t, w.input_norm)
    &&& made_from(t, w.q_proj)
    &&& made_from(t, w.k_proj)
    &&& made_from(t, w.v_proj)
    &&& uses_optional(t, w.q_bias)
    &&& uses_optional(t, w.k_bias)
    &&& uses_optional(t, w.v_bias)
    &&& uses_optional(t, w.q_norm)
    &&& uses_optional(t, w.k_norm)
    &&& made_from(t, w.o_proj)
    &&& made_from(t, w.post_attention_norm)
    &&& made_from(t, w.gate_proj)
    &&& made_from(t, w.up_proj)
    &&& made_from(t, w.down_proj)
}

proof fn lemma_projected_sources<T: QwenDType>(
    x: Term,
    weight: Term,
    bias: Option<Term>,
    rows: u32,
    n: u32,
    k: u32,
    count: u32,
)
    ensures
        ({
            let t = halved::<T>(biased::<T>(projected::<T>(x, weight, rows, n, k), bias, rows, n), count);
            made_from(t, x) && made_from(t, weight) && uses_optional(t, bias)
        }),
{
    let eps = Scalar::Size(0);
    let p = projected::<T>(x, weight, rows, n, k);
    T::law_sources(x, weight, weight, rows, n, k, eps);
    let b = biased::<T>(p, bias, rows, n);
    if let Some(z) = bias {
        T::law_sources(p, z, z, rows, n, k, eps);
    }
    T::law_sources(b, b, b, rows, count, k, eps);
}

proof fn lemma_turned_sources(
    x: Term,
    weight: Option<Term>,
    norm_rows: u32,
    rows: u32,
    heads: u32,
    width: u32,
    pos: u32,
    eps: Scalar,
    theta: Scalar,
)
    ensures
        ({
            let t = rope_neox(
                head_normed(x, weight, norm_rows, width, eps),
                rows,
                heads,
                width,
                pos,
                theta,
            );
            made_from(t, x) && uses_optional(t, weight)
        }),
{
    broadcast use group_origins;

}

/// What a layer makes of a stream is made from the stream, from what is cached
/// and from all of its weights.
pub proof fn law_layers_use_every_weight<T: QwenDType>(
    w: LayerValues,
    s: LayerState,
    c: TalkerConfig,
    rows: u32,
    pos: usize,
)
    ensures
        ({
            let t = decoder_layer::<T>(w, s, c, rows, pos).hidden;
            &&& made_from(t, s.hidden)
            &&& made_from(t, s.k)
            &&& made_from(t, s.v)
            &&& uses_layer(t, w)
        }),
{
    broadcast use group_origins;

    reveal(decoder_layer);
    let eps = Scalar::Double(c.rms_norm_eps);
    let theta = Scalar::Double(c.rope_theta);
    let h = c.hidden_size as u32;
    let n = c.intermediate_size as u32;
    let q = c.q_dim() as u32;
    let kv = c.kv_dim() as u32;
    let x = stream::<T>(w, s.hidden, c, rows);
    T::law_sources(s.hidden, w.input_norm, x, rows, h, h, eps);
    let (cq, ck) = ((rows * q) as u32, (rows * kv) as u32);
    lemma_projected_sources::<T>(x, w.q_proj, w.q_bias, rows, q, h, cq);
    lemma_projected_sources::<T>(x, w.k_proj, w.k_bias, rows, kv, h, ck);
    lemma_projected_sources::<T>(x, w.v_proj, w.v_bias, rows, kv, h, ck);
    let width = c.head_dim as u32;
    lemma_turned_sources(
        halved::<T>(biased::<T>(projected::<T>(x, w.q_proj, rows, q, h), w.q_bias, rows, q), cq),
        w.q_norm,
        (rows * c.num_attention_heads) as u32,
        rows,
        c.num_attention_heads as u32,
        width,
        pos as u32,
        eps,
        theta,
    );
    lemma_turned_sources(
        halved::<T>(biased::<T>(projected::<T>(x, w.k_proj, rows, kv, h), w.k_bias, rows, kv), ck),
        w.k_norm,
        (rows * c.num_key_value_heads) as u32,
        rows,
        c.num_key_value_heads as u32,
        width,
        pos as u32,
        eps,
        theta,
    );
    let mid = attended::<T>(w, s, c, rows, pos);
    let out = mha_fused(
        queries::<T>(w, x, c, rows, pos),
        mid.k,
        mid.v,
        width,
        c.num_attention_heads as u32,
        c.num_key_value_heads as u32,
        rows,
        (pos + rows) as u32,
        pos as u32,
    );
    assert(made_from(mid.k, s.k) && made_from(mid.k, keys::<T>(w, x, c, rows, pos)));
    assert(made_from(mid.v, s.v) && made_from(mid.v, attention_values::<T>(w, x, c, rows)));
    assert(made_from(out, mid.k) && made_from(out, mid.v));
    assert(made_from(out, queries::<T>(w, x, c, rows, pos)));
    let cr = (rows * c.q_dim()) as u32;
    let r = restored::<T>(out, cr);
    T::law_sources(out, out, out, rows, cr, h, eps);
    let d = projected::<T>(r, w.o_proj, rows, h, q);
    T::law_sources(r, w.o_proj, r, rows, h, q, eps);
    T::law_sources(s.hidden, d, d, rows, (rows * h) as u32, h, eps);
    let y = T::rms_norm_f32in_value(mid.hidden, w.post_attention_norm, rows, h, eps);
    T::law_sources(mid.hidden, w.post_attention_norm, y, rows, h, h, eps);
    T::law_sources(y, w.gate_proj, w.up_proj, rows, n, h, eps);
    T::law_sources(y, w.up_proj, w.up_proj, rows, n, h, eps);
    let gate = if rows == 1 {
        T::gemv_dual_out_a_value(y, w.gate_proj, w.up_proj, n, h)
    } else {
        T::matmul_value(y, w.gate_proj, rows, n, h)
    };
    let up = if rows == 1 {
        T::gemv_dual_out_b_value(y, w.gate_proj, w.up_proj, n, h)
    } else {
        T::matmul_value(y, w.up_proj, rows, n, h)
    };
    let cn = (rows * n) as u32;
    let a = T::silu_value(gate, up, cn);
    T::law_sources(gate, up, up, rows, cn, h, eps);
    let f = projected::<T>(a, w.down_proj, rows, h, n);
    T::law_sources(a, w.down_proj, a, rows, h, n, eps);
    T::law_sources(mid.hidden, f, f, rows, (rows * h) as u32, h, eps);
}

/// All layers and the final norm have their share in what a stack gives.
pub proof fn law_stacks_use_every_weight<T: QwenDType>(
    weights: Seq<LayerValues>,
    final_norm: Option<Term>,
    caches: Seq<(Term, Term)>,
    hidden: Term,
    c: TalkerConfig,
    rows: u32,
    pos: usize,
)
    ensures
        ({
            let t = stack_output::<T>(weights, final_norm, caches, hidden, c, rows, pos);
            &&& made_from(t, hidden)
            &&& uses_optional(t, final_norm)
            &&& forall|i: int| 0 <= i < weights.len() ==> uses_layer(t, #[trigger] weights[i])
        }),
{
    let n = weights.len();
    lemma_layers_sources::<T>(weights, caches, hidden, c, rows, pos, n);
    let last = after_layers::<T>(weights, caches, hidden, c, rows, pos, n);
    let h = c.hidden_size as u32;
    if let Some(weight) = final_norm {
        T::law_sources(last, weight, last, rows, h, h, Scalar::Double(c.rms_norm_eps));
    }
}

proof fn lemma_layers_sources<T: QwenDType>(
    weights: Seq<LayerValues>,
    caches: Seq<(Term, Term)>,
    hidden: Term,
    c: TalkerConfig,
    rows: u32,
    pos: usize,
    n: nat,
)
    requires
        n <= weights.len(),
    ensures
        made_from(after_layers::<T>(weights, caches, hidden, c, rows, pos, n), hidden),
        forall|i: int|
            0 <= i < n ==> uses_layer(
                after_layers::<T>(weights, caches, hidden, c, rows, pos, n),
                #[trigger] weights[i],
            ),
    decreases n,
{
    if n > 0 {
        let j = (n - 1) as nat;
        let before = after_layers::<T>(weights, caches, hidden, c, rows, pos, j);
        lemma_layers_sources::<T>(weights, caches, hidden, c, rows, pos, j);
        let state = LayerState { hidden: before, k: caches[n - 1].0, v: caches[n - 1].1 };
        law_layers_use_every_weight::<T>(weights[n - 1], state, c, rows, pos);
    }
}

/// A layer whose two branches add nothing leaves the stream as it is.
pub proof fn law_idle_layers_keep_the_stream<T: QwenDType>(
    m: Machine,
    w: LayerValues,
    s: LayerState,
    c: TalkerConfig,
    rows: u32,
    pos: usize,
)
    requires
        neutral(m),
        silent(m, !T::is_f16(), w.o_proj),
        silent(m, !T::is_f16(), w.down_proj),
    ensures
        alike(m, decoder_layer::<T>(w, s, c, rows, pos).hidden, s.hidden),
{
    reveal(decoder_layer);
    let h = c.hidden_size as u32;
    let n = c.intermediate_size as u32;
    let count = (rows * h) as u32;
    let x = stream::<T>(w, s.hidden, c, rows);
    let mid = attended::<T>(w, s, c, rows, pos);
    let out = mha_fused(
        queries::<T>(w, x, c, rows, pos),
        mid.k,
        mid.v,
        c.head_dim as u32,
        c.num_attention_heads as u32,
        c.num_key_value_heads as u32,
        rows,
        (pos + rows) as u32,
        pos as u32,
    );
    let r = restored::<T>(out, (rows * c.q_dim()) as u32);
    let d = projected::<T>(r, w.o_proj, rows, h, c.q_dim() as u32);
    lemma_projected::<T>(m, r, w.o_proj, rows, h, c.q_dim() as u32);
    T::law_residuals(m, s.hidden, d, count);
    assert(mid.hidden == T::add_residual_value(s.hidden, d, count));
    let y = T::rms_norm_f32in_value(
        mid.hidden,
        w.post_attention_norm,
        rows,
        h,
        Scalar::Double(c.rms_norm_eps),
    );
    let gate = if rows == 1 {
        T::gemv_dual_out_a_value(y, w.gate_proj, w.up_proj, n, h)
    } else {
        T::matmul_value(y, w.gate_proj, rows, n, h)
    };
    let up = if rows == 1 {
        T::gemv_dual_out_b_value(y, w.gate_proj, w.up_proj, n, h)
    } else {
        T::matmul_value(y, w.up_proj, rows, n, h)
    };
    let a = T::silu_value(gate, up, (rows * n) as u32);
    let f = projected::<T>(a, w.down_proj, rows, h, n);
    lemma_projected::<T>(m, a, w.down_proj, rows, h, n);
    T::law_residuals(m, mid.hidden, f, count);
    assert(fed_forward::<T>(w, mid.hidden, c, rows) == T::add_residual_value(mid.hidden, f, count));
}

/// What is cached are keys and values: neither depends on the weights of the
/// queries or of the other one, or on what comes after attention.
pub proof fn law_caches_hold_keys_and_values<T: QwenDType>(
    w: LayerValues,
    other: LayerValues,
    s: LayerState,
    c: TalkerConfig,
    rows: u32,
    pos: usize,
)
    requires
        other.input_norm == w.input_norm,
    ensures
        ({
            let a = decoder_layer::<T>(w, s, c, rows, pos);
            let b = decoder_layer::<T>(other, s, c, rows, pos);
            &&& (other.k_proj == w.k_proj && other.k_bias == w.k_bias && other.k_norm == w.k_norm)
                ==> a.k == b.k
            &&& (other.v_proj == w.v_proj && other.v_bias == w.v_bias) ==> a.v == b.v
            &&& made_from(a.k, w.k_proj)
            &&& uses_optional(a.k, w.k_bias)
            &&& uses_optional(a.k, w.k_norm)
            &&& made_from(a.v, w.v_proj)
            &&& uses_optional(a.v, w.v_bias)
        }),
{
    broadcast use group_origins;

    reveal(decoder_layer);
    let h = c.hidden_size as u32;
    let kv = c.kv_dim() as u32;
    let x = stream::<T>(w, s.hidden, c, rows);
    let ck = (rows * kv) as u32;
    lemma_projected_sources::<T>(x, w.k_proj, w.k_bias, rows, kv, h, ck);
    lemma_projected_sources::<T>(x, w.v_proj, w.v_bias, rows, kv, h, ck);
    lemma_turned_sources(
        halved::<T>(biased::<T>(projected::<T>(x, w.k_proj, rows, kv, h), w.k_bias, rows, kv), ck),
        w.k_norm,
        (rows * c.num_key_value_heads) as u32,
        rows,
        c.num_key_value_heads as u32,
        c.head_dim as u32,
        pos as u32,
        Scalar::Double(c.rms_norm_eps),
        Scalar::Double(c.rope_theta),
    );
    let a = attended::<T>(w, s, c, rows, pos);
    assert(made_from(a.k, keys::<T>(w, x, c, rows, pos)));
    assert(made_from(a.v, attention_values::<T>(w, x, c, rows)));
}

/// A product of blanks is blank.
proof fn lemma_blank_projected<T: QwenDType>(m: Machine, x: Term, weight: Term, rows: u32, n: u32, k: u32)
    requires
        still(m),
        blank(m, x),
    ensures
        blank(m, projected::<T>(x, weight, rows, n, k)),
{
    lemma_projected::<T>(m, x, weight, rows, n, k);
    let t = projected::<T>(x, weight, rows, n, k);
    assert forall|j: int| #[trigger] numbers(m, t)(j) == 0 by {
        let row = piece(numbers(m, x), j / (n as int) * k, k as int);
        assert(zero_row(row));
    }
}

/// What the feed-forward network adds is what comes up, let through by the
/// gate: where nothing comes up, it leaves the stream as it is.
pub proof fn law_gates_let_through_what_comes_up<T: QwenDType>(
    m: Machine,
    w: LayerValues,
    x: Term,
    c: TalkerConfig,
    rows: u32,
)
    requires
        neutral(m),
        still(m),
        silent(m, !T::is_f16(), w.up_proj),
    ensures
        alike(m, fed_forward::<T>(w, x, c, rows), x),
{
    let h = c.hidden_size as u32;
    let n = c.intermediate_size as u32;
    let y = T::rms_norm_f32in_value(
        x,
        w.post_attention_norm,
        rows,
        h,
        Scalar::Double(c.rms_norm_eps),
    );
    T::law_products(m, y, w.up_proj, rows, n, h);
    T::law_dual_products(m, y, w.gate_proj, w.up_proj, n, h);
    let gate = if rows == 1 {
        T::gemv_dual_out_a_value(y, w.gate_proj, w.up_proj, n, h)
    } else {
        T::matmul_value(y, w.gate_proj, rows, n, h)
    };
    let up = if rows == 1 {
        T::gemv_dual_out_b_value(y, w.gate_proj, w.up_proj, n, h)
    } else {
        T::matmul_value(y, w.up_proj, rows, n, h)
    };
    assert(blank(m, up));
    let cn = (rows * n) as u32;
    let a = T::silu_value(gate, up, cn);
    T::law_gates(m, gate, up, cn);
    assert forall|j: int| #[trigger] numbers(m, a)(j) == 0 by {
        assert(numbers(m, up)(j) == 0);
    }
    let f = projected::<T>(a, w.down_proj, rows, h, n);
    lemma_blank_projected::<T>(m, a, w.down_proj, rows, h, n);
    T::law_residuals(m, x, f, (rows * h) as u32);
    assert forall|j: int| #[trigger] numbers(m, fed_forward::<T>(w, x, c, rows))(j) == numbers(m, x)(j) by {
        assert(numbers(m, f)(j) == 0);
    }
}

/// What attention adds is gathered from the values: where they are all 0, it
/// leaves the stream as it is.
pub proof fn law_attention_gathers_values<T: QwenDType>(
    m: Machine,
    w: LayerValues,
    s: LayerState,
    c: TalkerConfig,
    rows: u32,
    pos: usize,
)
    requires
        neutral(m),
        still(m),
        decodable::<T>(c, rows as int, pos as int),
        blank(m, s.v),
        silent(m, !T::is_f16(), w.v_proj),
        w.v_bias is None,
    ensures
        alike(m, attended::<T>(w, s, c, rows, pos).hidden, s.hidden),
{
    let h = c.hidden_size as u32;
    let q = c.q_dim() as u32;
    let kv = c.kv_dim() as u32;
    let x = stream::<T>(w, s.hidden, c, rows);
    let after = attended::<T>(w, s, c, rows, pos);
    lemma_cache::<T>(m, w, s, c, rows, pos);
    let p = projected::<T>(x, w.v_proj, rows, kv, h);
    lemma_projected::<T>(m, x, w.v_proj, rows, kv, h);
    let cv = (rows * kv) as u32;
    if !T::is_f16() {
        T::law_conversions(m, p, cv);
    }
    let value = attention_values::<T>(w, x, c, rows);
    assert forall|j: int| #[trigger] numbers(m, value)(j) == 0 by {
        assert(numbers(m, p)(j) == 0);
    }
    assert forall|j: int| #[trigger] numbers(m, after.v)(j) == 0 by {
        assert(numbers(m, s.v)(j) == 0);
        assert(numbers(m, value)(j - pos * c.kv_dim()) == 0);
    }
    let query = queries::<T>(w, x, c, rows, pos);
    let (width, heads) = (c.head_dim as u32, c.num_attention_heads as u32);
    let kv_heads = c.num_key_value_heads as u32;
    let seen = (pos + rows) as u32;
    let out = mha_fused(query, after.k, after.v, width, heads, kv_heads, rows, seen, pos as u32);
    lemma_mha(m, query, after.k, after.v, width, heads, kv_heads, rows, seen, pos as u32);
    assert forall|j: int| #[trigger] numbers(m, out)(j) == 0 by {
        let n = least(pos + j / (width as int) / (heads as int) + 1, seen as int) * (kv_heads * width);
        let row = piece(numbers(m, after.v), 0, n);
        assert(zero_row(row));
    }
    let cr = (rows * c.q_dim()) as u32;
    let r = restored::<T>(out, cr);
    if !T::is_f16() {
        T::law_conversions(m, out, cr);
    }
    assert forall|j: int| #[trigger] numbers(m, r)(j) == 0 by {
        assert(numbers(m, out)(j) == 0);
    }
    let d = projected::<T>(r, w.o_proj, rows, h, q);
    lemma_blank_projected::<T>(m, r, w.o_proj, rows, h, q);
    T::law_residuals(m, s.hidden, d, (rows * h) as u32);
    assert(after.hidden == T::add_residual_value(s.hidden, d, (rows * h) as u32));
    assert forall|j: int| #[trigger] numbers(m, after.hidden)(j) == numbers(m, s.hidden)(j) by {
        assert(numbers(m, d)(j) == 0);
    }
}

} // verus!
