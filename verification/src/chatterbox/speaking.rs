//! What the T3 decoder promises: tokens may come in pieces, what is cached
//! stays, every weight has its share, and branches that add nothing leave the
//! stream as it is.
use vstd::prelude::*;
use crate::chatterbox::THETA_500000;
use crate::chatterbox::t3::{
    T3State, T3Values, after_layers, attended, fed_forward, first_attended, first_layers, layer_step,
    rotated, t3_first, t3_layer,
};
use crate::device::{EPS_1E5, Scalar, Term};
use crate::device::meaning::{
    Machine, Numbers, alike, blank, copied, group_origins, least, lemma_copy, lemma_mha, lemma_rope_freqs,
    made_from, neutral, nothing, numbers, piece, product_rows, silent, still, zero_row,
};
use crate::device::rows::{
    lemma_attended_row, lemma_gated_row, lemma_in_row, lemma_increased_row, lemma_normed_row,
    lemma_product_row, lemma_rotated_row, lemma_within, same_row,
};
use crate::device::value::{
    add_inplace_f32_f16, gemv_dual_f16_out_a, gemv_dual_f16_out_b, matmul_f16, mha_fused, rms_norm_f32in,
    silu,
};
use crate::qwen3_tts::decoding::in_pieces;
use crate::qwen3_tts::layer::projected;
use crate::qwen3_tts::precision::{F16, QwenDType, stream_gate, stream_norm};

verus! {

/// All that is computed with `rows` tokens from position `pos` on can be
/// counted.
pub open spec fn decodable(rows: int, pos: int) -> bool {
    &&& 0 <= pos
    &&& 4096 * rows <= u32::MAX
    &&& pos + rows <= u32::MAX
    &&& (pos + rows) * 1024 <= usize::MAX
}

/// The normalised stream.
spec fn stream(w: T3Values, hidden: Term, rows: u32) -> Term {
    rms_norm_f32in(hidden, w.input_norm, rows, 1024, Scalar::Single(EPS_1E5))
}

spec fn queries(w: T3Values, normed: Term, factors: Term, rows: u32, pos: usize) -> Term {
    rotated(projected::<F16>(normed, w.q_proj, rows, 1024, 1024), factors, rows, pos)
}

spec fn keys(w: T3Values, normed: Term, factors: Term, rows: u32, pos: usize) -> Term {
    rotated(projected::<F16>(normed, w.k_proj, rows, 1024, 1024), factors, rows, pos)
}

spec fn values(w: T3Values, normed: Term, rows: u32) -> Term {
    projected::<F16>(normed, w.v_proj, rows, 1024, 1024)
}

proof fn lemma_projected(m: Machine, x: Term, weight: Term, rows: u32, n: u32, k: u32)
    ensures
        numbers(m, projected::<F16>(x, weight, rows, n, k)) == product_rows(
            m,
            false,
            numbers(m, x),
            numbers(m, weight),
            n as int,
            k as int,
        ),
{
    F16::law_products(m, x, weight, rows, n, k);
}

/// A row is projected alike wherever it lies.
proof fn lemma_projected_row(
    m: Machine,
    x: Term,
    y: Term,
    weight: Term,
    rows_x: u32,
    rows_y: u32,
    n: u32,
    k: u32,
    i: int,
    l: int,
)
    requires
        same_row(numbers(m, x), i, numbers(m, y), l, k as int),
    ensures
        same_row(
            numbers(m, projected::<F16>(x, weight, rows_x, n, k)),
            i,
            numbers(m, projected::<F16>(y, weight, rows_y, n, k)),
            l,
            n as int,
        ),
{
    lemma_projected(m, x, weight, rows_x, n, k);
    lemma_projected(m, y, weight, rows_y, n, k);
    lemma_product_row(
        m,
        false,
        numbers(m, x),
        numbers(m, y),
        numbers(m, weight),
        n as int,
        k as int,
        i,
        l,
    );
}

/// A row is rotated to its position alike wherever it lies.
proof fn lemma_turned_row(
    m: Machine,
    x: Term,
    y: Term,
    factors: Term,
    rows_x: u32,
    rows_y: u32,
    pos_x: usize,
    pos_y: usize,
    i: int,
    l: int,
)
    requires
        pos_x <= u32::MAX,
        pos_y <= u32::MAX,
        same_row(numbers(m, x), i, numbers(m, y), l, 1024),
        pos_x + i == pos_y + l,
    ensures
        same_row(
            numbers(m, rotated(x, factors, rows_x, pos_x)),
            i,
            numbers(m, rotated(y, factors, rows_y, pos_y)),
            l,
            1024,
        ),
{
    let theta = Scalar::Single(THETA_500000);
    lemma_rope_freqs(m, x, factors, rows_x, 16, 64, pos_x as u32, theta);
    lemma_rope_freqs(m, y, factors, rows_y, 16, 64, pos_y as u32, theta);
    lemma_rotated_row(
        m,
        numbers(m, x),
        numbers(m, y),
        Some(numbers(m, factors)),
        16,
        64,
        pos_x as int,
        pos_y as int,
        theta,
        i,
        l,
    );
}

/// A row of the stream is normalised alike wherever it lies.
proof fn lemma_normed(
    m: Machine,
    x: Term,
    y: Term,
    weight: Term,
    rows_x: u32,
    rows_y: u32,
    i: int,
    l: int,
)
    requires
        same_row(numbers(m, x), i, numbers(m, y), l, 1024),
    ensures
        same_row(
            numbers(m, rms_norm_f32in(x, weight, rows_x, 1024, Scalar::Single(EPS_1E5))),
            i,
            numbers(m, rms_norm_f32in(y, weight, rows_y, 1024, Scalar::Single(EPS_1E5))),
            l,
            1024,
        ),
{
    let eps = Scalar::Single(EPS_1E5);
    F16::law_norms(m, x, weight, rows_x, 1024, eps);
    F16::law_norms(m, y, weight, rows_y, 1024, eps);
    lemma_normed_row(
        m,
        stream_norm(true),
        numbers(m, x),
        numbers(m, y),
        numbers(m, weight),
        nothing(),
        1,
        1024,
        eps,
        i,
        l,
    );
}

/// Query, key and value of a token depend on its row and its position alone.
proof fn lemma_inputs_row(
    m: Machine,
    w: T3Values,
    factors: Term,
    x: Term,
    y: Term,
    rows_x: u32,
    rows_y: u32,
    pos_x: usize,
    pos_y: usize,
    i: int,
    l: int,
)
    requires
        decodable(rows_x as int, pos_x as int),
        decodable(rows_y as int, pos_y as int),
        pos_x + i == pos_y + l,
        same_row(numbers(m, x), i, numbers(m, y), l, 1024),
    ensures
        ({
            let nx = stream(w, x, rows_x);
            let ny = stream(w, y, rows_y);
            &&& same_row(
                numbers(m, queries(w, nx, factors, rows_x, pos_x)),
                i,
                numbers(m, queries(w, ny, factors, rows_y, pos_y)),
                l,
                1024,
            )
            &&& same_row(
                numbers(m, keys(w, nx, factors, rows_x, pos_x)),
                i,
                numbers(m, keys(w, ny, factors, rows_y, pos_y)),
                l,
                1024,
            )
            &&& same_row(
                numbers(m, values(w, nx, rows_x)),
                i,
                numbers(m, values(w, ny, rows_y)),
                l,
                1024,
            )
        }),
{
    let nx = stream(w, x, rows_x);
    let ny = stream(w, y, rows_y);
    lemma_normed(m, x, y, w.input_norm, rows_x, rows_y, i, l);
    lemma_projected_row(m, nx, ny, w.q_proj, rows_x, rows_y, 1024, 1024, i, l);
    lemma_projected_row(m, nx, ny, w.k_proj, rows_x, rows_y, 1024, 1024, i, l);
    lemma_projected_row(m, nx, ny, w.v_proj, rows_x, rows_y, 1024, 1024, i, l);
    lemma_turned_row(
        m,
        projected::<F16>(nx, w.q_proj, rows_x, 1024, 1024),
        projected::<F16>(ny, w.q_proj, rows_y, 1024, 1024),
        factors,
        rows_x,
        rows_y,
        pos_x,
        pos_y,
        i,
        l,
    );
    lemma_turned_row(
        m,
        projected::<F16>(nx, w.k_proj, rows_x, 1024, 1024),
        projected::<F16>(ny, w.k_proj, rows_y, 1024, 1024),
        factors,
        rows_x,
        rows_y,
        pos_x,
        pos_y,
        i,
        l,
    );
}

/// What lies in a cache after a step.
proof fn lemma_cache(m: Machine, w: T3Values, factors: Term, s: T3State, rows: u32, pos: usize)
    requires
        decodable(rows as int, pos as int),
    ensures
        ({
            let normed = stream(w, s.hidden, rows);
            let after = attended(w, factors, s, rows, pos);
            &&& numbers(m, after.k) == copied(
                numbers(m, keys(w, normed, factors, rows, pos)),
                numbers(m, s.k),
                rows * 1024,
                pos * 1024,
            )
            &&& numbers(m, after.v) == copied(
                numbers(m, values(w, normed, rows)),
                numbers(m, s.v),
                rows * 1024,
                pos * 1024,
            )
        }),
{
    let normed = stream(w, s.hidden, rows);
    let count = (1024 * rows) as u32;
    let offset = (1024 * pos) as usize;
    lemma_copy(m, keys(w, normed, factors, rows, pos), s.k, count, offset);
    lemma_copy(m, values(w, normed, rows), s.v, count, offset);
}

/// What the feed-forward network makes of a token depends on its row alone.
proof fn lemma_fed_row(
    m: Machine,
    w: T3Values,
    x: Term,
    y: Term,
    rows_x: u32,
    rows_y: u32,
    i: int,
    l: int,
)
    requires
        4096 * rows_x <= u32::MAX,
        4096 * rows_y <= u32::MAX,
        0 <= i < rows_x,
        0 <= l < rows_y,
        same_row(numbers(m, x), i, numbers(m, y), l, 1024),
    ensures
        same_row(
            numbers(m, fed_forward(w, x, rows_x)),
            i,
            numbers(m, fed_forward(w, y, rows_y)),
            l,
            1024,
        ),
{
    let eps = Scalar::Single(EPS_1E5);
    let nx = rms_norm_f32in(x, w.post_attention_norm, rows_x, 1024, eps);
    let ny = rms_norm_f32in(y, w.post_attention_norm, rows_y, 1024, eps);
    lemma_normed(m, x, y, w.post_attention_norm, rows_x, rows_y, i, l);
    F16::law_products(m, nx, w.gate_proj, rows_x, 4096, 1024);
    F16::law_products(m, ny, w.gate_proj, rows_y, 4096, 1024);
    F16::law_products(m, nx, w.up_proj, rows_x, 4096, 1024);
    F16::law_products(m, ny, w.up_proj, rows_y, 4096, 1024);
    F16::law_dual_products(m, nx, w.gate_proj, w.up_proj, 4096, 1024);
    F16::law_dual_products(m, ny, w.gate_proj, w.up_proj, 4096, 1024);
    let gx = if rows_x == 1 {
        gemv_dual_f16_out_a(nx, w.gate_proj, w.up_proj, 4096, 1024)
    } else {
        matmul_f16(nx, w.gate_proj, rows_x, 4096, 1024)
    };
    let gy = if rows_y == 1 {
        gemv_dual_f16_out_a(ny, w.gate_proj, w.up_proj, 4096, 1024)
    } else {
        matmul_f16(ny, w.gate_proj, rows_y, 4096, 1024)
    };
    let ux = if rows_x == 1 {
        gemv_dual_f16_out_b(nx, w.gate_proj, w.up_proj, 4096, 1024)
    } else {
        matmul_f16(nx, w.up_proj, rows_x, 4096, 1024)
    };
    let uy = if rows_y == 1 {
        gemv_dual_f16_out_b(ny, w.gate_proj, w.up_proj, 4096, 1024)
    } else {
        matmul_f16(ny, w.up_proj, rows_y, 4096, 1024)
    };
    let (mx, my) = (numbers(m, nx), numbers(m, ny));
    lemma_product_row(m, false, mx, my, numbers(m, w.gate_proj), 4096, 1024, i, l);
    lemma_product_row(m, false, mx, my, numbers(m, w.up_proj), 4096, 1024, i, l);
    let (cx, cy) = ((4096 * rows_x) as u32, (4096 * rows_y) as u32);
    let ax = silu(gx, ux, cx);
    let ay = silu(gy, uy, cy);
    F16::law_gates(m, gx, ux, cx);
    F16::law_gates(m, gy, uy, cy);
    lemma_gated_row(
        m,
        stream_gate(true),
        numbers(m, ux),
        numbers(m, uy),
        numbers(m, gx),
        numbers(m, gy),
        4096,
        i,
        l,
    );
    let dx = projected::<F16>(ax, w.down_proj, rows_x, 1024, 4096);
    let dy = projected::<F16>(ay, w.down_proj, rows_y, 1024, 4096);
    lemma_projected_row(m, ax, ay, w.down_proj, rows_x, rows_y, 1024, 4096, i, l);
    lemma_added_row(m, x, y, dx, dy, rows_x, rows_y, i, l);
}

/// A branch is added to a row alike wherever it lies.
proof fn lemma_added_row(
    m: Machine,
    x: Term,
    y: Term,
    dx: Term,
    dy: Term,
    rows_x: u32,
    rows_y: u32,
    i: int,
    l: int,
)
    requires
        1024 * rows_x <= u32::MAX,
        1024 * rows_y <= u32::MAX,
        0 <= i < rows_x,
        0 <= l < rows_y,
        same_row(numbers(m, x), i, numbers(m, y), l, 1024),
        same_row(numbers(m, dx), i, numbers(m, dy), l, 1024),
    ensures
        same_row(
            numbers(m, add_inplace_f32_f16(x, dx, (1024 * rows_x) as u32)),
            i,
            numbers(m, add_inplace_f32_f16(y, dy, (1024 * rows_y) as u32)),
            l,
            1024,
        ),
{
    F16::law_residuals(m, x, dx, (1024 * rows_x) as u32);
    F16::law_residuals(m, y, dy, (1024 * rows_y) as u32);
    lemma_increased_row(
        m,
        numbers(m, x),
        numbers(m, y),
        numbers(m, dx),
        numbers(m, dy),
        1024,
        rows_x as int,
        rows_y as int,
        i,
        l,
    );
}

/// What a layer makes of a token depends on its row, its position and what is
/// cached up to it.
proof fn lemma_layer_row(
    m: Machine,
    w: T3Values,
    factors: Term,
    sx: T3State,
    sy: T3State,
    rows_x: u32,
    rows_y: u32,
    pos_x: usize,
    pos_y: usize,
    i: int,
    l: int,
)
    requires
        decodable(rows_x as int, pos_x as int),
        decodable(rows_y as int, pos_y as int),
        pos_x + i == pos_y + l,
        0 <= i < rows_x,
        0 <= l < rows_y,
        same_row(numbers(m, sx.hidden), i, numbers(m, sy.hidden), l, 1024),
        ({
            let ax = attended(w, factors, sx, rows_x, pos_x);
            let ay = attended(w, factors, sy, rows_y, pos_y);
            &&& forall|e: int|
                0 <= e < (pos_x + i + 1) * 1024 ==> #[trigger] numbers(m, ax.k)(e) == numbers(
                    m,
                    ay.k,
                )(e)
            &&& forall|e: int|
                0 <= e < (pos_x + i + 1) * 1024 ==> #[trigger] numbers(m, ax.v)(e) == numbers(
                    m,
                    ay.v,
                )(e)
        }),
    ensures
        same_row(
            numbers(m, t3_layer(w, factors, sx, rows_x, pos_x).hidden),
            i,
            numbers(m, t3_layer(w, factors, sy, rows_y, pos_y).hidden),
            l,
            1024,
        ),
{
    reveal(t3_layer);
    let ax = attended(w, factors, sx, rows_x, pos_x);
    let ay = attended(w, factors, sy, rows_y, pos_y);
    let nx = stream(w, sx.hidden, rows_x);
    let ny = stream(w, sy.hidden, rows_y);
    let qx = queries(w, nx, factors, rows_x, pos_x);
    let qy = queries(w, ny, factors, rows_y, pos_y);
    let (tx, ty) = ((pos_x + rows_x) as u32, (pos_y + rows_y) as u32);
    let ox = mha_fused(qx, ax.k, ax.v, 64, 16, 16, rows_x, tx, pos_x as u32);
    let oy = mha_fused(qy, ay.k, ay.v, 64, 16, 16, rows_y, ty, pos_y as u32);
    lemma_inputs_row(m, w, factors, sx.hidden, sy.hidden, rows_x, rows_y, pos_x, pos_y, i, l);
    lemma_mha(m, qx, ax.k, ax.v, 64, 16, 16, rows_x, tx, pos_x as u32);
    lemma_mha(m, qy, ay.k, ay.v, 64, 16, 16, rows_y, ty, pos_y as u32);
    lemma_attended_row(
        m,
        numbers(m, qx),
        numbers(m, qy),
        numbers(m, ax.k),
        numbers(m, ay.k),
        numbers(m, ax.v),
        numbers(m, ay.v),
        16,
        16,
        64,
        tx as int,
        ty as int,
        pos_x as int,
        pos_y as int,
        i,
        l,
    );
    let dx = projected::<F16>(ox, w.o_proj, rows_x, 1024, 1024);
    let dy = projected::<F16>(oy, w.o_proj, rows_y, 1024, 1024);
    lemma_projected_row(m, ox, oy, w.o_proj, rows_x, rows_y, 1024, 1024, i, l);
    lemma_added_row(m, sx.hidden, sy.hidden, dx, dy, rows_x, rows_y, i, l);
    lemma_fed_row(m, w, ax.hidden, ay.hidden, rows_x, rows_y, i, l);
}

/// A step leaves what is cached: the rows before the new tokens, and whatever
/// lies behind them, are as they were.
pub proof fn law_cached_rows_stay(
    m: Machine,
    w: T3Values,
    factors: Term,
    s: T3State,
    rows: u32,
    pos: usize,
    e: int,
)
    requires
        decodable(rows as int, pos as int),
        0 <= e < pos * 1024 || (pos + rows) * 1024 <= e,
    ensures
        numbers(m, t3_layer(w, factors, s, rows, pos).k)(e) == numbers(m, s.k)(e),
        numbers(m, t3_layer(w, factors, s, rows, pos).v)(e) == numbers(m, s.v)(e),
{
    reveal(t3_layer);
    lemma_cache(m, w, factors, s, rows, pos);
}

/// What is cached of a token at a position depends on its row alone.
proof fn lemma_cached_token(
    m: Machine,
    w: T3Values,
    factors: Term,
    sx: T3State,
    sy: T3State,
    rows_x: u32,
    rows_y: u32,
    pos_x: usize,
    pos_y: usize,
    i: int,
    l: int,
    col: int,
)
    requires
        decodable(rows_x as int, pos_x as int),
        decodable(rows_y as int, pos_y as int),
        pos_x + i == pos_y + l,
        0 <= i < rows_x,
        0 <= l < rows_y,
        0 <= col < 1024,
        same_row(numbers(m, sx.hidden), i, numbers(m, sy.hidden), l, 1024),
    ensures
        ({
            let e = (pos_x + i) * 1024 + col;
            let ax = attended(w, factors, sx, rows_x, pos_x);
            let ay = attended(w, factors, sy, rows_y, pos_y);
            numbers(m, ax.k)(e) == numbers(m, ay.k)(e) && numbers(m, ax.v)(e) == numbers(m, ay.v)(e)
        }),
{
    lemma_inputs_row(m, w, factors, sx.hidden, sy.hidden, rows_x, rows_y, pos_x, pos_y, i, l);
    lemma_cache(m, w, factors, sx, rows_x, pos_x);
    lemma_cache(m, w, factors, sy, rows_y, pos_y);
    let nx = stream(w, sx.hidden, rows_x);
    let ny = stream(w, sy.hidden, rows_y);
    lemma_in_row(
        numbers(m, keys(w, nx, factors, rows_x, pos_x)),
        i,
        numbers(m, keys(w, ny, factors, rows_y, pos_y)),
        l,
        1024,
        col,
    );
    lemma_in_row(
        numbers(m, values(w, nx, rows_x)),
        i,
        numbers(m, values(w, ny, rows_y)),
        l,
        1024,
        col,
    );
    lemma_within(i, rows_x as int, 1024, col);
    lemma_within(l, rows_y as int, 1024, col);
}

/// What is cached of a token when it comes in the first piece, in the second,
/// or with all others.
proof fn lemma_cached_pieces(
    m: Machine,
    w: T3Values,
    factors: Term,
    whole: T3State,
    first: Term,
    rest: Term,
    n: u32,
    a: u32,
    pos: usize,
    e: int,
)
    requires
        0 < a < n,
        decodable(n as int, pos as int),
        in_pieces(m, whole.hidden, first, rest, 1024, n as int, a as int),
        0 <= e,
    ensures
        ({
            let all = attended(w, factors, whole, n, pos);
            let one = attended(w, factors, T3State { hidden: first, ..whole }, a, pos);
            let two = attended(
                w,
                factors,
                T3State { hidden: rest, k: one.k, v: one.v },
                (n - a) as u32,
                (pos + a) as usize,
            );
            &&& numbers(m, two.k)(e) == numbers(m, all.k)(e)
            &&& numbers(m, two.v)(e) == numbers(m, all.v)(e)
            &&& e < (pos + a) * 1024 ==> numbers(m, one.k)(e) == numbers(m, all.k)(e) && numbers(
                m,
                one.v,
            )(e) == numbers(m, all.v)(e)
        }),
{
    let s1 = T3State { hidden: first, ..whole };
    let one = attended(w, factors, s1, a, pos);
    let s2 = T3State { hidden: rest, k: one.k, v: one.v };
    let (b, mid) = ((n - a) as u32, (pos + a) as usize);
    lemma_cache(m, w, factors, whole, n, pos);
    lemma_cache(m, w, factors, s1, a, pos);
    lemma_cache(m, w, factors, s2, b, mid);
    if pos * 1024 <= e < (pos + n) * 1024 {
        let r = e / 1024;
        let col = e % 1024;
        let i = r - pos;
        if i < a {
            assert(same_row(numbers(m, first), i, numbers(m, whole.hidden), i, 1024));
            lemma_cached_token(m, w, factors, s1, whole, a, n, pos, pos, i, i, col);
        } else {
            assert(same_row(numbers(m, rest), i - a, numbers(m, whole.hidden), i, 1024));
            lemma_cached_token(m, w, factors, s2, whole, b, n, mid, pos, i - a, i, col);
        }
    }
}

/// Tokens may come in pieces: a layer that is handed `a` tokens and then the
/// others leaves the same cache as one that is handed all at once, and makes the
/// same rows of them.
pub proof fn law_layers_take_tokens_in_pieces(
    m: Machine,
    w: T3Values,
    factors: Term,
    whole: T3State,
    first: Term,
    rest: Term,
    n: u32,
    a: u32,
    pos: usize,
)
    requires
        0 < a < n,
        decodable(n as int, pos as int),
        in_pieces(m, whole.hidden, first, rest, 1024, n as int, a as int),
    ensures
        ({
            let all = t3_layer(w, factors, whole, n, pos);
            let one = t3_layer(w, factors, T3State { hidden: first, ..whole }, a, pos);
            let two = t3_layer(
                w,
                factors,
                T3State { hidden: rest, k: one.k, v: one.v },
                (n - a) as u32,
                (pos + a) as usize,
            );
            &&& forall|e: int| 0 <= e ==> #[trigger] numbers(m, two.k)(e) == numbers(m, all.k)(e)
            &&& forall|e: int| 0 <= e ==> #[trigger] numbers(m, two.v)(e) == numbers(m, all.v)(e)
            &&& in_pieces(m, all.hidden, one.hidden, two.hidden, 1024, n as int, a as int)
        }),
{
    reveal(t3_layer);
    let s1 = T3State { hidden: first, ..whole };
    let all = t3_layer(w, factors, whole, n, pos);
    let one = t3_layer(w, factors, s1, a, pos);
    let s2 = T3State { hidden: rest, k: one.k, v: one.v };
    let (b, mid) = ((n - a) as u32, (pos + a) as usize);
    let two = t3_layer(w, factors, s2, b, mid);
    assert forall|e: int| 0 <= e implies #[trigger] numbers(m, two.k)(e) == numbers(m, all.k)(e) by {
        lemma_cached_pieces(m, w, factors, whole, first, rest, n, a, pos, e);
    }
    assert forall|e: int| 0 <= e implies #[trigger] numbers(m, two.v)(e) == numbers(m, all.v)(e) by {
        lemma_cached_pieces(m, w, factors, whole, first, rest, n, a, pos, e);
    }
    assert forall|i: int| 0 <= i < a implies #[trigger] same_row(
        numbers(m, one.hidden),
        i,
        numbers(m, all.hidden),
        i,
        1024,
    ) by {
        assert(same_row(numbers(m, first), i, numbers(m, whole.hidden), i, 1024));
        assert forall|e: int|
            0 <= e < (pos + i + 1) * 1024 implies #[trigger] numbers(m, one.k)(e) == numbers(
            m,
            all.k,
        )(e) by {
            lemma_cached_pieces(m, w, factors, whole, first, rest, n, a, pos, e);
        }
        assert forall|e: int|
            0 <= e < (pos + i + 1) * 1024 implies #[trigger] numbers(m, one.v)(e) == numbers(
            m,
            all.v,
        )(e) by {
            lemma_cached_pieces(m, w, factors, whole, first, rest, n, a, pos, e);
        }
        lemma_layer_row(m, w, factors, s1, whole, a, n, pos, pos, i, i);
    }
    assert forall|i: int| a <= i < n implies #[trigger] same_row(
        numbers(m, two.hidden),
        i - a,
        numbers(m, all.hidden),
        i,
        1024,
    ) by {
        assert(same_row(numbers(m, rest), i - a, numbers(m, whole.hidden), i, 1024));
        lemma_layer_row(m, w, factors, s2, whole, b, n, mid, pos, i - a, i);
    }
}

/// What every layer has cached after a step.
pub open spec fn caches_after(
    weights: Seq<T3Values>,
    factors: Term,
    caches: Seq<(Term, Term)>,
    hidden: Term,
    rows: u32,
    pos: usize,
) -> Seq<(Term, Term)> {
    Seq::new(
        weights.len(),
        |j: int|
            {
                let step = layer_step(weights, factors, caches, hidden, rows, pos, j as nat);
                (step.k, step.v)
            },
    )
}

/// Tokens may come in pieces: layers that are handed `a` tokens and then the
/// others, over what the first left in the caches, give the same rows as those
/// that are handed all at once.
pub proof fn law_stacks_take_tokens_in_pieces(
    m: Machine,
    weights: Seq<T3Values>,
    factors: Term,
    caches: Seq<(Term, Term)>,
    whole: Term,
    first: Term,
    rest: Term,
    n: u32,
    a: u32,
    pos: usize,
    layers: nat,
)
    requires
        0 < a < n,
        layers <= weights.len(),
        decodable(n as int, pos as int),
        in_pieces(m, whole, first, rest, 1024, n as int, a as int),
    ensures
        in_pieces(
            m,
            after_layers(weights, factors, caches, whole, n, pos, layers),
            after_layers(weights, factors, caches, first, a, pos, layers),
            after_layers(
                weights,
                factors,
                caches_after(weights, factors, caches, first, a, pos),
                rest,
                (n - a) as u32,
                (pos + a) as usize,
                layers,
            ),
            1024,
            n as int,
            a as int,
        ),
    decreases layers,
{
    if layers > 0 {
        let j = (layers - 1) as nat;
        let later = caches_after(weights, factors, caches, first, a, pos);
        let (b, mid) = ((n - a) as u32, (pos + a) as usize);
        law_stacks_take_tokens_in_pieces(
            m,
            weights,
            factors,
            caches,
            whole,
            first,
            rest,
            n,
            a,
            pos,
            j,
        );
        let state = T3State {
            hidden: after_layers(weights, factors, caches, whole, n, pos, j),
            k: caches[j as int].0,
            v: caches[j as int].1,
        };
        law_layers_take_tokens_in_pieces(
            m,
            weights[j as int],
            factors,
            state,
            after_layers(weights, factors, caches, first, a, pos, j),
            after_layers(weights, factors, later, rest, b, mid, j),
            n,
            a,
            pos,
        );
    }
}

/// All weights of a layer go into `t`.
pub open spec fn uses_layer(t: Term, w: T3Values) -> bool {
    &&& made_from(t, w.input_norm)
    &&& made_from(t, w.q_proj)
    &&& made_from(t, w.k_proj)
    &&& made_from(t, w.v_proj)
    &&& made_from(t, w.o_proj)
    &&& made_from(t, w.post_attention_norm)
    &&& made_from(t, w.gate_proj)
    &&& made_from(t, w.up_proj)
    &&& made_from(t, w.down_proj)
}

/// What a layer makes of a stream is made from the stream, from what is cached,
/// from the rotation's factors and from all of its weights.
pub proof fn law_layers_use_every_weight(
    w: T3Values,
    factors: Term,
    s: T3State,
    rows: u32,
    pos: usize,
)
    ensures
        ({
            let t = t3_layer(w, factors, s, rows, pos).hidden;
            &&& made_from(t, s.hidden)
            &&& made_from(t, s.k)
            &&& made_from(t, s.v)
            &&& made_from(t, factors)
            &&& uses_layer(t, w)
        }),
{
    broadcast use group_origins;

    reveal(t3_layer);
    let mid = attended(w, factors, s, rows, pos).hidden;
    assert(made_from(mid, s.hidden) && made_from(mid, s.k) && made_from(mid, s.v));
    assert(made_from(mid, w.q_proj) && made_from(mid, w.k_proj) && made_from(mid, w.v_proj));
    assert(made_from(mid, w.input_norm) && made_from(mid, w.o_proj) && made_from(mid, factors));
    let t = fed_forward(w, mid, rows);
    assert(made_from(t, mid));
}

/// A layer whose two branches add nothing leaves the stream as it is.
pub proof fn law_idle_layers_keep_the_stream(
    m: Machine,
    w: T3Values,
    factors: Term,
    s: T3State,
    rows: u32,
    pos: usize,
)
    requires
        neutral(m),
        silent(m, false, w.o_proj),
        silent(m, false, w.down_proj),
    ensures
        alike(m, t3_layer(w, factors, s, rows, pos).hidden, s.hidden),
{
    reveal(t3_layer);
    let n = (1024 * rows) as u32;
    let normed = stream(w, s.hidden, rows);
    let after = attended(w, factors, s, rows, pos);
    let out = mha_fused(
        queries(w, normed, factors, rows, pos),
        after.k,
        after.v,
        64,
        16,
        16,
        rows,
        (pos + rows) as u32,
        pos as u32,
    );
    let d = projected::<F16>(out, w.o_proj, rows, 1024, 1024);
    lemma_projected(m, out, w.o_proj, rows, 1024, 1024);
    F16::law_residuals(m, s.hidden, d, n);
    assert(after.hidden == add_inplace_f32_f16(s.hidden, d, n));
    let x = after.hidden;
    let y = rms_norm_f32in(x, w.post_attention_norm, rows, 1024, Scalar::Single(EPS_1E5));
    let gate = if rows == 1 {
        gemv_dual_f16_out_a(y, w.gate_proj, w.up_proj, 4096, 1024)
    } else {
        matmul_f16(y, w.gate_proj, rows, 4096, 1024)
    };
    let up = if rows == 1 {
        gemv_dual_f16_out_b(y, w.gate_proj, w.up_proj, 4096, 1024)
    } else {
        matmul_f16(y, w.up_proj, rows, 4096, 1024)
    };
    let a = silu(gate, up, (4096 * rows) as u32);
    let f = projected::<F16>(a, w.down_proj, rows, 1024, 4096);
    lemma_projected(m, a, w.down_proj, rows, 1024, 4096);
    F16::law_residuals(m, x, f, n);
    assert(fed_forward(w, x, rows) == add_inplace_f32_f16(x, f, n));
}

/// A layer that meets its first token is made from it and from all weights.
pub proof fn law_first_layers_use_every_weight(w: T3Values, x: Term)
    ensures
        made_from(t3_first(w, x), x),
        uses_layer(t3_first(w, x), w),
{
    broadcast use group_origins;

    reveal(t3_first);
    let mid = first_attended(w, x);
    assert(made_from(mid, x) && made_from(mid, w.q_proj) && made_from(mid, w.k_proj));
    assert(made_from(mid, w.v_proj) && made_from(mid, w.input_norm) && made_from(mid, w.o_proj));
}

/// All layers have their share in what they make of a first token.
pub proof fn law_first_tokens_pass_every_layer(weights: Seq<T3Values>, x: Term, n: nat)
    requires
        n <= weights.len(),
    ensures
        made_from(first_layers(weights, x, n), x),
        forall|i: int|
            0 <= i < n ==> uses_layer(first_layers(weights, x, n), #[trigger] weights[i]),
    decreases n,
{
    if n > 0 {
        let before = first_layers(weights, x, (n - 1) as nat);
        law_first_tokens_pass_every_layer(weights, x, (n - 1) as nat);
        law_first_layers_use_every_weight(weights[n - 1], before);
    }
}

/// All layers have their share in what they make of a stream.
pub proof fn law_streams_pass_every_layer(
    weights: Seq<T3Values>,
    factors: Term,
    caches: Seq<(Term, Term)>,
    hidden: Term,
    rows: u32,
    pos: usize,
    n: nat,
)
    requires
        n <= weights.len(),
    ensures
        made_from(after_layers(weights, factors, caches, hidden, rows, pos, n), hidden),
        forall|i: int|
            0 <= i < n ==> uses_layer(
                after_layers(weights, factors, caches, hidden, rows, pos, n),
                #[trigger] weights[i],
            ),
    decreases n,
{
    if n > 0 {
        let j = (n - 1) as nat;
        let before = after_layers(weights, factors, caches, hidden, rows, pos, j);
        law_streams_pass_every_layer(weights, factors, caches, hidden, rows, pos, j);
        let state = T3State { hidden: before, k: caches[n - 1].0, v: caches[n - 1].1 };
        law_layers_use_every_weight(weights[n - 1], factors, state, rows, pos);
    }
}

/// At the first position nothing is rotated.
pub open spec fn unturned(m: Machine) -> bool {
    forall|row: Seq<int>, factors: Option<Numbers>, theta: Scalar, c: int|
        0 <= c < row.len() ==> #[trigger] (m.rotate)(row, factors, 0, theta, c) == row[c]
}

/// At the first position, a rotated row is the row.
proof fn lemma_unturned(m: Machine, x: Term, factors: Term, j: int)
    requires
        unturned(m),
        0 <= j < 1024,
    ensures
        numbers(m, rotated(x, factors, 1, 0))(j) == numbers(m, x)(j),
{
    let theta = Scalar::Single(THETA_500000);
    lemma_rope_freqs(m, x, factors, 1, 16, 64, 0, theta);
    let row = piece(numbers(m, x), j / 64 * 64, 64);
    assert(j / 64 / 16 == 0);
    assert(0 <= j % 64 < row.len());
    assert(row[j % 64] == numbers(m, x)(j / 64 * 64 + j % 64));
    assert(j / 64 * 64 + j % 64 == j);
}

/// A first token needs no cache: what a layer makes of it without one is what it
/// makes of it at the first position of a cache, whatever lies there.
pub proof fn law_first_tokens_need_no_cache(m: Machine, w: T3Values, factors: Term, s: T3State, x: Term)
    requires
        unturned(m),
        same_row(numbers(m, x), 0, numbers(m, s.hidden), 0, 1024),
    ensures
        same_row(
            numbers(m, t3_first(w, x)),
            0,
            numbers(m, t3_layer(w, factors, s, 1, 0).hidden),
            0,
            1024,
        ),
{
    reveal(t3_first);
    reveal(t3_layer);
    let eps = Scalar::Single(EPS_1E5);
    let y = s.hidden;
    let nx = stream(w, x, 1);
    let ny = stream(w, y, 1);
    lemma_normed(m, x, y, w.input_norm, 1, 1, 0, 0);
    let (qx, qy) = (matmul_f16(nx, w.q_proj, 1, 1024, 1024), projected::<F16>(ny, w.q_proj, 1, 1024, 1024));
    let (kx, ky) = (matmul_f16(nx, w.k_proj, 1, 1024, 1024), projected::<F16>(ny, w.k_proj, 1, 1024, 1024));
    let (vx, vy) = (matmul_f16(nx, w.v_proj, 1, 1024, 1024), projected::<F16>(ny, w.v_proj, 1, 1024, 1024));
    lemma_product_alike(m, nx, ny, w.q_proj, 1024, 1024);
    lemma_product_alike(m, nx, ny, w.k_proj, 1024, 1024);
    lemma_product_alike(m, nx, ny, w.v_proj, 1024, 1024);
    let rq = rotated(qy, factors, 1, 0);
    let rk = rotated(ky, factors, 1, 0);
    assert forall|j: int| 0 <= j < 1024 implies #[trigger] numbers(m, qx)(j) == numbers(m, rq)(j) by {
        lemma_unturned(m, qy, factors, j);
        lemma_in_row(numbers(m, qx), 0, numbers(m, qy), 0, 1024, j);
    }
    lemma_first_rows_agree(numbers(m, qx), numbers(m, rq), 1024);
    let after = attended(w, factors, s, 1, 0);
    lemma_cache(m, w, factors, s, 1, 0);
    assert forall|e: int| 0 <= e < 1024 implies #[trigger] numbers(m, kx)(e) == numbers(m, after.k)(e) by {
        lemma_unturned(m, ky, factors, e);
        lemma_in_row(numbers(m, kx), 0, numbers(m, ky), 0, 1024, e);
    }
    assert forall|e: int| 0 <= e < 1024 implies #[trigger] numbers(m, vx)(e) == numbers(m, after.v)(e) by {
        lemma_in_row(numbers(m, vx), 0, numbers(m, vy), 0, 1024, e);
    }
    let ox = mha_fused(qx, kx, vx, 64, 16, 16, 1, 1, 0);
    let oy = mha_fused(rq, after.k, after.v, 64, 16, 16, 1, 1, 0);
    lemma_mha(m, qx, kx, vx, 64, 16, 16, 1, 1, 0);
    lemma_mha(m, rq, after.k, after.v, 64, 16, 16, 1, 1, 0);
    lemma_attended_row(
        m,
        numbers(m, qx),
        numbers(m, rq),
        numbers(m, kx),
        numbers(m, after.k),
        numbers(m, vx),
        numbers(m, after.v),
        16,
        16,
        64,
        1,
        1,
        0,
        0,
        0,
        0,
    );
    let dx = matmul_f16(ox, w.o_proj, 1, 1024, 1024);
    let dy = projected::<F16>(oy, w.o_proj, 1, 1024, 1024);
    lemma_product_alike(m, ox, oy, w.o_proj, 1024, 1024);
    lemma_added_row(m, x, y, dx, dy, 1, 1, 0, 0);
    let mx = first_attended(w, x);
    let my = after.hidden;
    assert(mx == add_inplace_f32_f16(x, dx, 1024));
    assert(my == add_inplace_f32_f16(y, dy, 1024));
    let px = rms_norm_f32in(mx, w.post_attention_norm, 1, 1024, eps);
    let py = rms_norm_f32in(my, w.post_attention_norm, 1, 1024, eps);
    lemma_normed(m, mx, my, w.post_attention_norm, 1, 1, 0, 0);
    let (gx, ux) = (matmul_f16(px, w.gate_proj, 1, 4096, 1024), matmul_f16(px, w.up_proj, 1, 4096, 1024));
    let gy = gemv_dual_f16_out_a(py, w.gate_proj, w.up_proj, 4096, 1024);
    let uy = gemv_dual_f16_out_b(py, w.gate_proj, w.up_proj, 4096, 1024);
    F16::law_dual_products(m, py, w.gate_proj, w.up_proj, 4096, 1024);
    lemma_product_alike(m, px, py, w.gate_proj, 4096, 1024);
    lemma_product_alike(m, px, py, w.up_proj, 4096, 1024);
    lemma_projected(m, py, w.gate_proj, 1, 4096, 1024);
    lemma_projected(m, py, w.up_proj, 1, 4096, 1024);
    F16::law_gates(m, gx, ux, 4096);
    F16::law_gates(m, gy, uy, 4096);
    let ax = silu(gx, ux, 4096);
    let ay = silu(gy, uy, 4096);
    lemma_gated_row(
        m,
        stream_gate(true),
        numbers(m, ux),
        numbers(m, uy),
        numbers(m, gx),
        numbers(m, gy),
        4096,
        0,
        0,
    );
    let fx = matmul_f16(ax, w.down_proj, 1, 1024, 4096);
    let fy = projected::<F16>(ay, w.down_proj, 1, 1024, 4096);
    lemma_product_alike(m, ax, ay, w.down_proj, 1024, 4096);
    lemma_added_row(m, mx, my, fx, fy, 1, 1, 0, 0);
}

/// First rows with equal numbers are equal.
proof fn lemma_first_rows_agree(a: Numbers, b: Numbers, width: int)
    requires
        0 <= width,
        forall|j: int| 0 <= j < width ==> #[trigger] a(j) == b(j),
    ensures
        same_row(a, 0, b, 0, width),
{
    assert(piece(a, 0 * width, width) =~= piece(b, 0 * width, width));
}

/// One row is mapped alike by either product.
proof fn lemma_product_alike(m: Machine, x: Term, y: Term, weight: Term, n: u32, k: u32)
    requires
        same_row(numbers(m, x), 0, numbers(m, y), 0, k as int),
    ensures
        same_row(
            numbers(m, matmul_f16(x, weight, 1, n, k)),
            0,
            numbers(m, projected::<F16>(y, weight, 1, n, k)),
            0,
            n as int,
        ),
{
    F16::law_products(m, x, weight, 1, n, k);
    lemma_projected(m, y, weight, 1, n, k);
    lemma_product_row(
        m,
        false,
        numbers(m, x),
        numbers(m, y),
        numbers(m, weight),
        n as int,
        k as int,
        0,
        0,
    );
}

/// A first token passes all layers alike, without a cache and at the first
/// position of any.
pub proof fn law_first_tokens_pass_without_a_cache(
    m: Machine,
    weights: Seq<T3Values>,
    factors: Term,
    caches: Seq<(Term, Term)>,
    x: Term,
    n: nat,
)
    requires
        unturned(m),
        n <= weights.len(),
    ensures
        same_row(
            numbers(m, first_layers(weights, x, n)),
            0,
            numbers(m, after_layers(weights, factors, caches, x, 1, 0, n)),
            0,
            1024,
        ),
    decreases n,
{
    if n > 0 {
        let j = (n - 1) as nat;
        law_first_tokens_pass_without_a_cache(m, weights, factors, caches, x, j);
        let state = T3State {
            hidden: after_layers(weights, factors, caches, x, 1, 0, j),
            k: caches[n - 1].0,
            v: caches[n - 1].1,
        };
        law_first_tokens_need_no_cache(m, weights[n - 1], factors, state, first_layers(weights, x, j));
    }
}

/// What is cached are keys and values: neither depends on the weights of the
/// queries or of the other one, or on what comes after attention.
pub proof fn law_caches_hold_keys_and_values(
    w: T3Values,
    other: T3Values,
    factors: Term,
    s: T3State,
    rows: u32,
    pos: usize,
)
    requires
        other.input_norm == w.input_norm,
    ensures
        ({
            let a = t3_layer(w, factors, s, rows, pos);
            let b = t3_layer(other, factors, s, rows, pos);
            &&& other.k_proj == w.k_proj ==> a.k == b.k
            &&& other.v_proj == w.v_proj ==> a.v == b.v
            &&& made_from(a.k, w.k_proj)
            &&& made_from(a.k, factors)
            &&& made_from(a.v, w.v_proj)
        }),
{
    broadcast use group_origins;

    reveal(t3_layer);
}

/// A product of blanks is blank.
proof fn lemma_blank_projected(m: Machine, x: Term, weight: Term, rows: u32, n: u32, k: u32)
    requires
        still(m),
        blank(m, x),
    ensures
        blank(m, projected::<F16>(x, weight, rows, n, k)),
{
    lemma_projected(m, x, weight, rows, n, k);
    let t = projected::<F16>(x, weight, rows, n, k);
    assert forall|j: int| #[trigger] numbers(m, t)(j) == 0 by {
        let row = piece(numbers(m, x), j / (n as int) * k, k as int);
        assert(zero_row(row));
    }
}

/// What the feed-forward network adds is what comes up, let through by the
/// gate: where nothing comes up, it leaves the stream as it is.
pub proof fn law_gates_let_through_what_comes_up(m: Machine, w: T3Values, x: Term, rows: u32)
    requires
        neutral(m),
        still(m),
        silent(m, false, w.up_proj),
    ensures
        alike(m, fed_forward(w, x, rows), x),
{
    let y = rms_norm_f32in(x, w.post_attention_norm, rows, 1024, Scalar::Single(EPS_1E5));
    F16::law_products(m, y, w.up_proj, rows, 4096, 1024);
    F16::law_dual_products(m, y, w.gate_proj, w.up_proj, 4096, 1024);
    let gate = if rows == 1 {
        gemv_dual_f16_out_a(y, w.gate_proj, w.up_proj, 4096, 1024)
    } else {
        matmul_f16(y, w.gate_proj, rows, 4096, 1024)
    };
    let up = if rows == 1 {
        gemv_dual_f16_out_b(y, w.gate_proj, w.up_proj, 4096, 1024)
    } else {
        matmul_f16(y, w.up_proj, rows, 4096, 1024)
    };
    assert(blank(m, up));
    let n = (4096 * rows) as u32;
    let a = silu(gate, up, n);
    F16::law_gates(m, gate, up, n);
    assert forall|j: int| #[trigger] numbers(m, a)(j) == 0 by {
        assert(numbers(m, up)(j) == 0);
    }
    let f = projected::<F16>(a, w.down_proj, rows, 1024, 4096);
    lemma_blank_projected(m, a, w.down_proj, rows, 1024, 4096);
    F16::law_residuals(m, x, f, (1024 * rows) as u32);
    assert forall|j: int| #[trigger] numbers(m, fed_forward(w, x, rows))(j) == numbers(m, x)(j) by {
        assert(numbers(m, f)(j) == 0);
    }
}

/// What attention adds is gathered from the values: where they are all 0, it
/// leaves the stream as it is.
pub proof fn law_attention_gathers_values(
    m: Machine,
    w: T3Values,
    factors: Term,
    s: T3State,
    rows: u32,
    pos: usize,
)
    requires
        neutral(m),
        still(m),
        decodable(rows as int, pos as int),
        blank(m, s.v),
        silent(m, false, w.v_proj),
    ensures
        alike(m, attended(w, factors, s, rows, pos).hidden, s.hidden),
{
    let x = stream(w, s.hidden, rows);
    let after = attended(w, factors, s, rows, pos);
    lemma_cache(m, w, factors, s, rows, pos);
    let value = values(w, x, rows);
    lemma_projected(m, x, w.v_proj, rows, 1024, 1024);
    assert forall|j: int| #[trigger] numbers(m, after.v)(j) == 0 by {
        assert(numbers(m, s.v)(j) == 0);
        assert(numbers(m, value)(j - pos * 1024) == 0);
    }
    let query = queries(w, x, factors, rows, pos);
    let seen = (pos + rows) as u32;
    let out = mha_fused(query, after.k, after.v, 64, 16, 16, rows, seen, pos as u32);
    lemma_mha(m, query, after.k, after.v, 64, 16, 16, rows, seen, pos as u32);
    assert forall|j: int| #[trigger] numbers(m, out)(j) == 0 by {
        let n = least(pos + j / 64 / 16 + 1, seen as int) * (16 * 64);
        let row = piece(numbers(m, after.v), 0, n);
        assert(zero_row(row));
    }
    let d = projected::<F16>(out, w.o_proj, rows, 1024, 1024);
    lemma_blank_projected(m, out, w.o_proj, rows, 1024, 1024);
    let n = (1024 * rows) as u32;
    F16::law_residuals(m, s.hidden, d, n);
    assert(after.hidden == add_inplace_f32_f16(s.hidden, d, n));
    assert forall|j: int| #[trigger] numbers(m, after.hidden)(j) == numbers(m, s.hidden)(j) by {
        assert(numbers(m, d)(j) == 0);
    }
}

} // verus!
