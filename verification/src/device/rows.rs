//! Kernels that work row by row: what they make of a row does not depend on
//! where the row lies.
use vstd::prelude::*;
use crate::device::Scalar;
use crate::device::kernels::Kernel;
use crate::device::meaning::{
    Machine, Numbers, admitted_rows, attended_rows, biased_rows, gated, increased, joined, least,
    mapped, modulated_rows, normed_rows, piece, product_rows, rotated_rows, summed,
};

verus! {

/// Row `i` of `x` is row `k` of `y`, in rows of `width` numbers.
pub open spec fn same_row(x: Numbers, i: int, y: Numbers, k: int, width: int) -> bool {
    piece(x, i * width, width) == piece(y, k * width, width)
}

/// Where a column of a row lies.
pub proof fn lemma_place(i: int, width: int, c: int)
    requires
        0 <= c < width,
    ensures
        (i * width + c) / width == i,
        (i * width + c) % width == c,
{
    vstd::arithmetic::div_mod::lemma_fundamental_div_mod_converse(i * width + c, width, i, c);
}

/// Where a column of a head of a token lies.
pub proof fn lemma_head_place(i: int, heads: int, width: int, e: int)
    requires
        0 < heads,
        0 < width,
        0 <= e < heads * width,
    ensures
        (i * (heads * width) + e) / width == i * heads + e / width,
        (i * (heads * width) + e) % width == e % width,
        0 <= e / width < heads,
        0 <= e % width < width,
        (i * heads + e / width) / heads == i,
        (i * heads + e / width) % heads == e / width,
        (i * heads + e / width) * width == i * (heads * width) + (e / width) * width,
        0 <= (e / width) * width,
        (e / width) * width + width <= heads * width,
{
    let h = e / width;
    let c = e % width;
    vstd::arithmetic::div_mod::lemma_fundamental_div_mod(e, width);
    assert(e == h * width + c) by (nonlinear_arith)
        requires
            e == width * h + c,
    ;
    assert(0 <= h < heads) by (nonlinear_arith)
        requires
            0 <= e < heads * width,
            e == h * width + c,
            0 <= c < width,
    ;
    assert((i * heads + h) * width == i * (heads * width) + h * width) by (nonlinear_arith);
    assert(h * width + width <= heads * width) by (nonlinear_arith)
        requires
            h < heads,
            0 < width,
    ;
    assert(0 <= h * width) by (nonlinear_arith)
        requires
            0 <= h,
            0 < width,
    ;
    lemma_place(i * heads + h, width, c);
    lemma_place(i, heads, h);
}

/// Equal rows have equal numbers.
pub proof fn lemma_in_row(x: Numbers, i: int, y: Numbers, k: int, width: int, c: int)
    requires
        same_row(x, i, y, k, width),
        0 <= c < width,
    ensures
        x(i * width + c) == y(k * width + c),
{
    assert(piece(x, i * width, width)[c] == x(i * width + c));
    assert(piece(y, k * width, width)[c] == y(k * width + c));
}

/// Equal rows have equal parts.
pub proof fn lemma_part_of_row(x: Numbers, i: int, y: Numbers, k: int, width: int, from: int, n: int)
    requires
        same_row(x, i, y, k, width),
        0 <= from,
        0 <= n,
        from + n <= width,
    ensures
        piece(x, i * width + from, n) == piece(y, k * width + from, n),
{
    let a = piece(x, i * width + from, n);
    let b = piece(y, k * width + from, n);
    assert forall|c: int| 0 <= c < n implies #[trigger] a[c] == b[c] by {
        lemma_in_row(x, i, y, k, width, from + c);
    }
    assert(a =~= b);
}

/// Rows whose numbers are equal are equal.
pub proof fn lemma_rows_agree(x: Numbers, i: int, y: Numbers, k: int, width: int)
    requires
        forall|c: int| 0 <= c < width ==> #[trigger] x(i * width + c) == y(k * width + c),
    ensures
        same_row(x, i, y, k, width),
{
    let a = piece(x, i * width, width);
    let b = piece(y, k * width, width);
    assert forall|c: int| 0 <= c < width implies #[trigger] a[c] == b[c] by {
        assert(x(i * width + c) == y(k * width + c));
    }
    assert(a =~= b);
}

/// Rows without columns are equal.
pub proof fn lemma_empty_row(x: Numbers, i: int, y: Numbers, k: int, heads: int, width: int)
    requires
        heads == 0 || width == 0,
    ensures
        same_row(x, i, y, k, heads * width),
{
    assert(heads * width == 0) by (nonlinear_arith)
        requires
            heads == 0 || width == 0,
    ;
    assert(piece(x, i * (heads * width), heads * width) =~= piece(
        y,
        k * (heads * width),
        heads * width,
    ));
}

/// Normalisation works row by row, or head by head within a row.
pub proof fn lemma_normed_row(
    m: Machine,
    kernel: Kernel,
    x: Numbers,
    y: Numbers,
    scale: Numbers,
    shift: Numbers,
    heads: int,
    width: int,
    eps: Scalar,
    i: int,
    k: int,
)
    requires
        0 <= heads,
        0 <= width,
        same_row(x, i, y, k, heads * width),
    ensures
        same_row(
            normed_rows(m, kernel, x, scale, shift, width, eps),
            i,
            normed_rows(m, kernel, y, scale, shift, width, eps),
            k,
            heads * width,
        ),
{
    let total = heads * width;
    let a = normed_rows(m, kernel, x, scale, shift, width, eps);
    let b = normed_rows(m, kernel, y, scale, shift, width, eps);
    if heads == 0 || width == 0 {
        lemma_empty_row(a, i, b, k, heads, width);
    } else {
        assert forall|e: int| 0 <= e < total implies #[trigger] a(i * total + e) == b(k * total + e) by {
            lemma_head_place(i, heads, width, e);
            lemma_head_place(k, heads, width, e);
            lemma_part_of_row(x, i, y, k, total, (e / width) * width, width);
        }
        lemma_rows_agree(a, i, b, k, total);
    }
}

/// Products work row by row.
pub proof fn lemma_product_row(
    m: Machine,
    brain: bool,
    x: Numbers,
    y: Numbers,
    weight: Numbers,
    n: int,
    width: int,
    i: int,
    k: int,
)
    requires
        same_row(x, i, y, k, width),
    ensures
        same_row(
            product_rows(m, brain, x, weight, n, width),
            i,
            product_rows(m, brain, y, weight, n, width),
            k,
            n,
        ),
{
    let a = product_rows(m, brain, x, weight, n, width);
    let b = product_rows(m, brain, y, weight, n, width);
    assert forall|c: int| 0 <= c < n implies #[trigger] a(i * n + c) == b(k * n + c) by {
        lemma_place(i, n, c);
        lemma_place(k, n, c);
    }
    lemma_rows_agree(a, i, b, k, n);
}

/// A bias is added row by row.
pub proof fn lemma_biased_row(m: Machine, x: Numbers, y: Numbers, bias: Numbers, width: int, i: int, k: int)
    requires
        same_row(x, i, y, k, width),
    ensures
        same_row(biased_rows(m, x, bias, width), i, biased_rows(m, y, bias, width), k, width),
{
    let a = biased_rows(m, x, bias, width);
    let b = biased_rows(m, y, bias, width);
    assert forall|c: int| 0 <= c < width implies #[trigger] a(i * width + c) == b(k * width + c) by {
        lemma_in_row(x, i, y, k, width, c);
        lemma_place(i, width, c);
        lemma_place(k, width, c);
    }
    lemma_rows_agree(a, i, b, k, width);
}

/// Functions of single numbers work row by row.
pub proof fn lemma_mapped_row(
    m: Machine,
    kernel: Kernel,
    x: Numbers,
    y: Numbers,
    s: Seq<Scalar>,
    width: int,
    i: int,
    k: int,
)
    requires
        same_row(x, i, y, k, width),
    ensures
        same_row(mapped(m, kernel, x, s), i, mapped(m, kernel, y, s), k, width),
{
    let a = mapped(m, kernel, x, s);
    let b = mapped(m, kernel, y, s);
    assert forall|c: int| 0 <= c < width implies #[trigger] a(i * width + c) == b(k * width + c) by {
        lemma_in_row(x, i, y, k, width, c);
    }
    lemma_rows_agree(a, i, b, k, width);
}

/// Gates work row by row.
pub proof fn lemma_gated_row(
    m: Machine,
    kernel: Kernel,
    x: Numbers,
    y: Numbers,
    gate_x: Numbers,
    gate_y: Numbers,
    width: int,
    i: int,
    k: int,
)
    requires
        same_row(x, i, y, k, width),
        same_row(gate_x, i, gate_y, k, width),
    ensures
        same_row(gated(m, kernel, gate_x, x), i, gated(m, kernel, gate_y, y), k, width),
{
    let a = gated(m, kernel, gate_x, x);
    let b = gated(m, kernel, gate_y, y);
    assert forall|c: int| 0 <= c < width implies #[trigger] a(i * width + c) == b(k * width + c) by {
        lemma_in_row(x, i, y, k, width, c);
        lemma_in_row(gate_x, i, gate_y, k, width, c);
    }
    lemma_rows_agree(a, i, b, k, width);
}

/// A stream grows row by row.
pub proof fn lemma_increased_row(
    m: Machine,
    x: Numbers,
    y: Numbers,
    dx: Numbers,
    dy: Numbers,
    width: int,
    rows_x: int,
    rows_y: int,
    i: int,
    k: int,
)
    requires
        same_row(x, i, y, k, width),
        same_row(dx, i, dy, k, width),
        0 <= i < rows_x,
        0 <= k < rows_y,
    ensures
        same_row(
            increased(m, x, dx, rows_x * width),
            i,
            increased(m, y, dy, rows_y * width),
            k,
            width,
        ),
{
    let a = increased(m, x, dx, rows_x * width);
    let b = increased(m, y, dy, rows_y * width);
    assert forall|c: int| 0 <= c < width implies #[trigger] a(i * width + c) == b(k * width + c) by {
        lemma_in_row(x, i, y, k, width, c);
        lemma_in_row(dx, i, dy, k, width, c);
        lemma_within(i, rows_x, width, c);
        lemma_within(k, rows_y, width, c);
    }
    lemma_rows_agree(a, i, b, k, width);
}

/// A column of one of the first rows lies among their numbers.
pub proof fn lemma_within(i: int, rows: int, width: int, c: int)
    requires
        0 <= i < rows,
        0 <= c < width,
    ensures
        0 <= i * width + c < rows * width,
{
    assert(0 <= i * width + c < rows * width) by (nonlinear_arith)
        requires
            0 <= i < rows,
            0 <= c < width,
    ;
}

/// A token is rotated to its position, wherever its row lies.
pub proof fn lemma_rotated_row(
    m: Machine,
    x: Numbers,
    y: Numbers,
    factors: Option<Numbers>,
    heads: int,
    width: int,
    pos_x: int,
    pos_y: int,
    theta: Scalar,
    i: int,
    k: int,
)
    requires
        0 <= heads,
        0 <= width,
        same_row(x, i, y, k, heads * width),
        pos_x + i == pos_y + k,
    ensures
        same_row(
            rotated_rows(m, x, factors, heads, width, pos_x, theta),
            i,
            rotated_rows(m, y, factors, heads, width, pos_y, theta),
            k,
            heads * width,
        ),
{
    let total = heads * width;
    let a = rotated_rows(m, x, factors, heads, width, pos_x, theta);
    let b = rotated_rows(m, y, factors, heads, width, pos_y, theta);
    if heads == 0 || width == 0 {
        lemma_empty_row(a, i, b, k, heads, width);
    } else {
        assert forall|e: int| 0 <= e < total implies #[trigger] a(i * total + e) == b(k * total + e) by {
            lemma_head_place(i, heads, width, e);
            lemma_head_place(k, heads, width, e);
            lemma_part_of_row(x, i, y, k, total, (e / width) * width, width);
        }
        lemma_rows_agree(a, i, b, k, total);
    }
}

/// A token gathers from the tokens up to itself, wherever its row lies.
pub proof fn lemma_attended_row(
    m: Machine,
    x: Numbers,
    y: Numbers,
    keys_x: Numbers,
    keys_y: Numbers,
    values_x: Numbers,
    values_y: Numbers,
    heads: int,
    kv_heads: int,
    width: int,
    seen_x: int,
    seen_y: int,
    pos_x: int,
    pos_y: int,
    i: int,
    k: int,
)
    requires
        0 <= heads,
        0 <= width,
        same_row(x, i, y, k, heads * width),
        pos_x + i == pos_y + k,
        pos_x + i < seen_x,
        pos_y + k < seen_y,
        forall|e: int|
            0 <= e < (pos_x + i + 1) * (kv_heads * width) ==> #[trigger] keys_x(e) == keys_y(e),
        forall|e: int|
            0 <= e < (pos_x + i + 1) * (kv_heads * width) ==> #[trigger] values_x(e) == values_y(e),
    ensures
        same_row(
            attended_rows(m, x, keys_x, values_x, width, heads, kv_heads, seen_x, pos_x),
            i,
            attended_rows(m, y, keys_y, values_y, width, heads, kv_heads, seen_y, pos_y),
            k,
            heads * width,
        ),
{
    let total = heads * width;
    let a = attended_rows(m, x, keys_x, values_x, width, heads, kv_heads, seen_x, pos_x);
    let b = attended_rows(m, y, keys_y, values_y, width, heads, kv_heads, seen_y, pos_y);
    if heads == 0 || width == 0 {
        lemma_empty_row(a, i, b, k, heads, width);
    } else {
        let n = (pos_x + i + 1) * (kv_heads * width);
        assert(piece(keys_x, 0, n) =~= piece(keys_y, 0, n));
        assert(piece(values_x, 0, n) =~= piece(values_y, 0, n));
        assert forall|e: int| 0 <= e < total implies #[trigger] a(i * total + e) == b(k * total + e) by {
            lemma_head_place(i, heads, width, e);
            lemma_head_place(k, heads, width, e);
            lemma_part_of_row(x, i, y, k, total, (e / width) * width, width);
            assert(least(pos_x + i + 1, seen_x) == pos_x + i + 1);
            assert(least(pos_y + k + 1, seen_y) == pos_x + i + 1);
        }
        lemma_rows_agree(a, i, b, k, total);
    }
}

/// Modulation works row by row.
pub proof fn lemma_modulated_row(
    m: Machine,
    x: Numbers,
    y: Numbers,
    by_x: Numbers,
    by_y: Numbers,
    width: int,
    parts: int,
    i: int,
    k: int,
)
    requires
        same_row(x, i, y, k, width),
        same_row(by_x, i, by_y, k, width * parts),
    ensures
        same_row(
            modulated_rows(m, x, by_x, width, parts),
            i,
            modulated_rows(m, y, by_y, width, parts),
            k,
            width,
        ),
{
    let a = modulated_rows(m, x, by_x, width, parts);
    let b = modulated_rows(m, y, by_y, width, parts);
    assert forall|c: int| 0 <= c < width implies #[trigger] a(i * width + c) == b(k * width + c) by {
        lemma_in_row(x, i, y, k, width, c);
        lemma_place(i, width, c);
        lemma_place(k, width, c);
    }
    lemma_rows_agree(a, i, b, k, width);
}

/// What modulations admit is added row by row.
pub proof fn lemma_admitted_row(
    m: Machine,
    x: Numbers,
    y: Numbers,
    by_x: Numbers,
    by_y: Numbers,
    dx: Numbers,
    dy: Numbers,
    width: int,
    i: int,
    k: int,
)
    requires
        same_row(x, i, y, k, width),
        same_row(by_x, i, by_y, k, width * 3),
        same_row(dx, i, dy, k, width),
    ensures
        same_row(
            admitted_rows(m, x, by_x, dx, width),
            i,
            admitted_rows(m, y, by_y, dy, width),
            k,
            width,
        ),
{
    let a = admitted_rows(m, x, by_x, dx, width);
    let b = admitted_rows(m, y, by_y, dy, width);
    assert forall|c: int| 0 <= c < width implies #[trigger] a(i * width + c) == b(k * width + c) by {
        lemma_in_row(x, i, y, k, width, c);
        lemma_in_row(dx, i, dy, k, width, c);
        lemma_place(i, width, c);
        lemma_place(k, width, c);
    }
    lemma_rows_agree(a, i, b, k, width);
}

/// Sums work row by row.
pub proof fn lemma_summed_row(
    m: Machine,
    x: Numbers,
    y: Numbers,
    dx: Numbers,
    dy: Numbers,
    width: int,
    i: int,
    k: int,
)
    requires
        same_row(x, i, y, k, width),
        same_row(dx, i, dy, k, width),
    ensures
        same_row(summed(m, x, dx), i, summed(m, y, dy), k, width),
{
    let a = summed(m, x, dx);
    let b = summed(m, y, dy);
    assert forall|c: int| 0 <= c < width implies #[trigger] a(i * width + c) == b(k * width + c) by {
        lemma_in_row(x, i, y, k, width, c);
        lemma_in_row(dx, i, dy, k, width, c);
    }
    lemma_rows_agree(a, i, b, k, width);
}

/// Of two joined rows of one width, the first is the one, the second the other.
pub proof fn lemma_joined_rows(x: Numbers, y: Numbers, width: int)
    requires
        0 <= width,
    ensures
        same_row(joined(x, y, width, width), 0, x, 0, width),
        same_row(joined(x, y, width, width), 1, y, 0, width),
{
    let a = joined(x, y, width, width);
    assert forall|c: int| 0 <= c < width implies #[trigger] a(0 * width + c) == x(0 * width + c) by {
        lemma_place(0, 2 * width, c);
    }
    lemma_rows_agree(a, 0, x, 0, width);
    assert forall|c: int| 0 <= c < width implies #[trigger] a(1 * width + c) == y(0 * width + c) by {
        lemma_place(0, 2 * width, width + c);
    }
    lemma_rows_agree(a, 1, y, 0, width);
}

} // verus!
