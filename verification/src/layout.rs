//! Rearranging host data: transposition, repetition and interleaving of rows.
use vstd::prelude::*;
use crate::arith::lemma_mul_comm;

verus! {

/// The element of row `r` and column `c` in a row-major matrix.
pub open spec fn cell<T>(data: Seq<T>, width: int, r: int, c: int) -> T {
    data[r * width + c]
}

/// An element of a matrix lies within it.
pub proof fn lemma_cell(rows: int, width: int, r: int, c: int)
    requires
        0 <= r < rows,
        0 <= c < width,
    ensures
        0 <= r * width + c < rows * width,
        0 <= r * width,
        (r + 1) * width <= rows * width,
        (r + 1) * width == r * width + width,
{
    assert(0 <= r * width) by (nonlinear_arith)
        requires
            0 <= r,
            0 <= width,
    ;
    assert((r + 1) * width == r * width + width) by (nonlinear_arith);
    assert((r + 1) * width <= rows * width) by (nonlinear_arith)
        requires
            r + 1 <= rows,
            0 <= width,
    ;
}

/// The columns of a `rows` by `cols` row-major matrix, one after another.
pub fn transposed<T: Copy>(data: &[T], rows: usize, cols: usize) -> (out: Vec<T>)
    requires
        data@.len() == rows * cols,
    ensures
        out@.len() == data@.len(),
        forall|r: int, c: int|
            0 <= r < rows && 0 <= c < cols ==> #[trigger] cell(out@, rows as int, c, r) == cell(
                data@,
                cols as int,
                r,
                c,
            ),
{
    let mut out: Vec<T> = Vec::new();
    let n: usize = data.len();
    proof {
        lemma_mul_comm(rows as int, cols as int);
        assert(0 * rows == 0) by (nonlinear_arith);
    }
    for c in 0..cols
        invariant
            n == data@.len(),
            data@.len() == rows * cols,
            rows * cols == cols * rows,
            out@.len() == c * rows,
            forall|r: int, d: int|
                0 <= r < rows && 0 <= d < c ==> #[trigger] cell(out@, rows as int, d, r) == cell(
                    data@,
                    cols as int,
                    r,
                    d,
                ),
    {
        proof {
            assert((c + 1) * rows == c * rows + rows) by (nonlinear_arith);
        }
        for r in 0..rows
            invariant
                c < cols,
                n == data@.len(),
                data@.len() == rows * cols,
                rows * cols == cols * rows,
                out@.len() == c * rows + r,
                forall|s: int, d: int|
                    0 <= s < rows && 0 <= d < c ==> #[trigger] cell(out@, rows as int, d, s)
                        == cell(data@, cols as int, s, d),
                forall|s: int|
                    0 <= s < r ==> #[trigger] cell(out@, rows as int, c as int, s) == cell(
                        data@,
                        cols as int,
                        s,
                        c as int,
                    ),
        {
            proof {
                lemma_cell(rows as int, cols as int, r as int, c as int);
            }
            let ghost before = out@;
            out.push(data[r * cols + c]);
            proof {
                assert forall|s: int, d: int| 0 <= s < rows && 0 <= d < c implies #[trigger] cell(
                    out@,
                    rows as int,
                    d,
                    s,
                ) == cell(data@, cols as int, s, d) by {
                    lemma_cell(c as int, rows as int, d, s);
                    assert(cell(before, rows as int, d, s) == cell(data@, cols as int, s, d));
                }
                assert forall|s: int| 0 <= s < r + 1 implies #[trigger] cell(
                    out@,
                    rows as int,
                    c as int,
                    s,
                ) == cell(data@, cols as int, s, c as int) by {
                    if s < r {
                        assert(cell(before, rows as int, c as int, s) == cell(
                            data@,
                            cols as int,
                            s,
                            c as int,
                        ));
                    }
                }
            }
        }
    }
    out
}

/// Transposing back gives the matrix itself.
pub proof fn law_transposition_is_an_involution<T>(
    data: Seq<T>,
    once: Seq<T>,
    twice: Seq<T>,
    rows: int,
    cols: int,
)
    requires
        rows >= 0,
        cols >= 0,
        data.len() == rows * cols,
        once.len() == data.len(),
        twice.len() == data.len(),
        forall|r: int, c: int|
            0 <= r < rows && 0 <= c < cols ==> #[trigger] cell(once, rows, c, r) == cell(
                data,
                cols,
                r,
                c,
            ),
        forall|c: int, r: int|
            0 <= c < cols && 0 <= r < rows ==> #[trigger] cell(twice, cols, r, c) == cell(
                once,
                rows,
                c,
                r,
            ),
    ensures
        twice == data,
{
    assert forall|i: int| 0 <= i < data.len() implies twice[i] == data[i] by {
        assert(cols > 0) by (nonlinear_arith)
            requires
                0 <= i < rows * cols,
                rows >= 0,
                cols >= 0,
        ;
        let r = i / cols;
        let c = i % cols;
        assert(i == r * cols + c && 0 <= c < cols && 0 <= r < rows) by (nonlinear_arith)
            requires
                0 <= i < rows * cols,
                cols > 0,
                r == i / cols,
                c == i % cols,
        ;
        assert(cell(twice, cols, r, c) == cell(once, rows, c, r));
        assert(cell(once, rows, c, r) == cell(data, cols, r, c));
    }
    assert(twice =~= data);
}

/// The element of the cube `data` at `(a, b, c)`, whose last two sides are
/// `sb` and `sc`.
pub open spec fn voxel<T>(data: Seq<T>, sb: int, sc: int, a: int, b: int, c: int) -> T {
    data[(a * sb + b) * sc + c]
}

/// An element of a cube lies within it.
pub proof fn lemma_voxel(sa: int, sb: int, sc: int, a: int, b: int, c: int)
    requires
        0 <= a < sa,
        0 <= b < sb,
        0 <= c < sc,
    ensures
        0 <= a * sb + b < sa * sb,
        0 <= (a * sb + b) * sc + c < sa * sb * sc,
        0 <= (a * sb + b) * sc,
{
    lemma_cell(sa, sb, a, b);
    lemma_cell(sa * sb, sc, a * sb + b, c);
}

/// Exchanges the first two sides of a cube: from `[heads, tokens, width]` to
/// `[tokens, heads, width]`.
pub fn position_major<T: Copy>(data: &[T], heads: usize, tokens: usize, width: usize) -> (out: Vec<T>)
    requires
        data@.len() == heads * tokens * width,
        heads * tokens <= usize::MAX,
    ensures
        out@.len() == data@.len(),
        forall|t: int, h: int, d: int|
            0 <= t < tokens && 0 <= h < heads && 0 <= d < width ==> #[trigger] voxel(
                out@,
                heads as int,
                width as int,
                t,
                h,
                d,
            ) == voxel(data@, tokens as int, width as int, h, t, d),
{
    let n: usize = data.len();
    let mut out: Vec<T> = Vec::new();
    let total: usize = heads * tokens;
    proof {
        lemma_mul_comm(heads as int, tokens as int);
        assert(0 * width == 0) by (nonlinear_arith);
    }
    for row in 0..total
        invariant
            n == data@.len(),
            total == heads * tokens,
            total == tokens * heads,
            data@.len() == total * width,
            out@.len() == row * width,
            forall|t: int, h: int, d: int|
                0 <= t < tokens && 0 <= h < heads && 0 <= d < width && t * heads + h < row
                    ==> #[trigger] voxel(out@, heads as int, width as int, t, h, d) == voxel(
                    data@,
                    tokens as int,
                    width as int,
                    h,
                    t,
                    d,
                ),
    {
        proof {
            assert(heads > 0 && tokens > 0) by (nonlinear_arith)
                requires
                    0 <= row < heads * tokens,
                    heads >= 0,
                    tokens >= 0,
            ;
        }
        let t: usize = row / heads;
        let h: usize = row % heads;
        proof {
            assert(row == t * heads + h && 0 <= h < heads && t < tokens) by (nonlinear_arith)
                requires
                    0 <= row < tokens * heads,
                    heads > 0,
                    t == row / heads,
                    h == row % heads,
            ;
            lemma_cell(heads as int, tokens as int, h as int, t as int);
            assert((row + 1) * width == row * width + width) by (nonlinear_arith);
        }
        let source: usize = h * tokens + t;
        for d in 0..width
            invariant
                n == data@.len(),
                total == heads * tokens,
                data@.len() == total * width,
                source == h * tokens + t,
                source < total,
                row == t * heads + h,
                0 <= h < heads,
                t < tokens,
                out@.len() == row * width + d,
                forall|u: int, g: int, e: int|
                    0 <= u < tokens && 0 <= g < heads && 0 <= e < width && (u * heads + g < row || (
                    u * heads + g == row && e < d)) ==> #[trigger] voxel(
                        out@,
                        heads as int,
                        width as int,
                        u,
                        g,
                        e,
                    ) == voxel(data@, tokens as int, width as int, g, u, e),
        {
            proof {
                lemma_cell(total as int, width as int, source as int, d as int);
            }
            let ghost before = out@;
            out.push(data[source * width + d]);
            proof {
                assert forall|u: int, g: int, e: int|
                    0 <= u < tokens && 0 <= g < heads && 0 <= e < width && (u * heads + g < row || (
                    u * heads + g == row && e < d + 1)) implies #[trigger] voxel(
                    out@,
                    heads as int,
                    width as int,
                    u,
                    g,
                    e,
                ) == voxel(data@, tokens as int, width as int, g, u, e) by {
                    lemma_cell(tokens as int, heads as int, u, g);
                    if u * heads + g < row {
                        lemma_cell(row as int, width as int, u * heads + g, e);
                        assert(voxel(before, heads as int, width as int, u, g, e) == voxel(
                            data@,
                            tokens as int,
                            width as int,
                            g,
                            u,
                            e,
                        ));
                    } else {
                        assert(u == t && g == h) by (nonlinear_arith)
                            requires
                                u * heads + g == t * heads + h,
                                0 <= g < heads,
                                0 <= h < heads,
                        ;
                        if e < d {
                            assert(voxel(before, heads as int, width as int, u, g, e) == voxel(
                                data@,
                                tokens as int,
                                width as int,
                                g,
                                u,
                                e,
                            ));
                        }
                    }
                }
            }
        }
    }
    proof {
        assert forall|t: int, h: int, d: int|
            0 <= t < tokens && 0 <= h < heads && 0 <= d < width implies #[trigger] voxel(
            out@,
            heads as int,
            width as int,
            t,
            h,
            d,
        ) == voxel(data@, tokens as int, width as int, h, t, d) by {
            lemma_cell(tokens as int, heads as int, t, h);
        }
    }
    out
}

/// Row `i` of a row-major matrix.
pub open spec fn row<T>(data: Seq<T>, width: int, i: int) -> Seq<T> {
    data.subrange(i * width, (i + 1) * width)
}

/// Appends `n` elements of `data` from `from` on.
fn extend_from<T: Copy>(out: &mut Vec<T>, data: &[T], from: usize, n: usize)
    requires
        from + n <= data@.len(),
    ensures
        final(out)@ == old(out)@ + data@.subrange(from as int, from + n),
{
    let ghost before = out@;
    let total: usize = data.len();
    assert(out@ =~= before + data@.subrange(from as int, from as int));
    for i in 0..n
        invariant
            total == data@.len(),
            from + n <= data@.len(),
            out@ == before + data@.subrange(from as int, from + i),
    {
        out.push(data[from + i]);
        assert(out@ =~= before + data@.subrange(from as int, from + i + 1));
    }
}

/// The rows of two matrices side by side.
pub fn joined_rows<T: Copy>(a: &[T], b: &[T], rows: usize, width_a: usize, width_b: usize) -> (out:
    Vec<T>)
    requires
        a@.len() == rows * width_a,
        b@.len() == rows * width_b,
    ensures
        out@.len() == rows * (width_a + width_b),
        forall|i: int|
            0 <= i < rows ==> #[trigger] row(out@, width_a + width_b, i) == row(
                a@,
                width_a as int,
                i,
            ) + row(b@, width_b as int, i),
{
    let mut out: Vec<T> = Vec::new();
    let na: usize = a.len();
    let nb: usize = b.len();
    proof {
        assert(0 * (width_a + width_b) == 0) by (nonlinear_arith);
    }
    for i in 0..rows
        invariant
            na == a@.len(),
            nb == b@.len(),
            a@.len() == rows * width_a,
            b@.len() == rows * width_b,
            out@.len() == i * (width_a + width_b),
            forall|j: int|
                0 <= j < i ==> #[trigger] row(out@, width_a + width_b, j) == row(
                    a@,
                    width_a as int,
                    j,
                ) + row(b@, width_b as int, j),
    {
        let ghost before = out@;
        proof {
            lemma_row(rows as int, width_a as int, i as int);
            lemma_row(rows as int, width_b as int, i as int);
            lemma_row(rows as int, width_a + width_b, i as int);
        }
        extend_from(&mut out, a, i * width_a, width_a);
        extend_from(&mut out, b, i * width_b, width_b);
        proof {
            let width = width_a + width_b;
            assert forall|j: int| 0 <= j < i + 1 implies #[trigger] row(out@, width, j) == row(
                a@,
                width_a as int,
                j,
            ) + row(b@, width_b as int, j) by {
                lemma_row(i + 1, width, j);
                if j < i {
                    lemma_row(i as int, width, j);
                    assert(row(out@, width, j) =~= row(before, width, j));
                } else {
                    assert(row(out@, width, j) =~= row(a@, width_a as int, j) + row(
                        b@,
                        width_b as int,
                        j,
                    ));
                }
            }
        }
    }
    out
}

/// Every row of a matrix with one and the same row behind it.
pub fn rows_with<T: Copy>(a: &[T], tail: &[T], rows: usize, width: usize) -> (out: Vec<T>)
    requires
        a@.len() == rows * width,
    ensures
        out@.len() == rows * (width + tail@.len()),
        forall|i: int|
            0 <= i < rows ==> #[trigger] row(out@, width + tail@.len(), i) == row(
                a@,
                width as int,
                i,
            ) + tail@,
{
    let mut out: Vec<T> = Vec::new();
    let na: usize = a.len();
    let nt: usize = tail.len();
    proof {
        assert(0 * (width + nt) == 0) by (nonlinear_arith);
    }
    for i in 0..rows
        invariant
            na == a@.len(),
            nt == tail@.len(),
            a@.len() == rows * width,
            out@.len() == i * (width + nt),
            forall|j: int|
                0 <= j < i ==> #[trigger] row(out@, width + nt, j) == row(a@, width as int, j)
                    + tail@,
    {
        let ghost before = out@;
        proof {
            lemma_row(rows as int, width as int, i as int);
            lemma_row(rows as int, width + nt, i as int);
        }
        extend_from(&mut out, a, i * width, width);
        extend_from(&mut out, tail, 0, nt);
        proof {
            let full = width + nt;
            assert(tail@.subrange(0, nt as int) =~= tail@);
            assert forall|j: int| 0 <= j < i + 1 implies #[trigger] row(out@, full, j) == row(
                a@,
                width as int,
                j,
            ) + tail@ by {
                lemma_row(i + 1, full, j);
                if j < i {
                    lemma_row(i as int, full, j);
                    assert(row(out@, full, j) =~= row(before, full, j));
                } else {
                    assert(row(out@, full, j) =~= row(a@, width as int, j) + tail@);
                }
            }
        }
    }
    out
}

/// A row lies within its matrix.
pub proof fn lemma_row(rows: int, width: int, i: int)
    requires
        0 <= i < rows,
        0 <= width,
    ensures
        0 <= i * width,
        (i + 1) * width == i * width + width,
        i * width + width <= rows * width,
{
    assert(0 <= i * width) by (nonlinear_arith)
        requires
            0 <= i,
            0 <= width,
    ;
    assert((i + 1) * width == i * width + width) by (nonlinear_arith);
    assert((i + 1) * width <= rows * width) by (nonlinear_arith)
        requires
            i + 1 <= rows,
            0 <= width,
    ;
}

/// The sum of counts.
pub open spec fn total(counts: Seq<usize>) -> nat
    decreases counts.len(),
{
    if counts.len() == 0 {
        0
    } else {
        total(counts.drop_last()) + counts.last() as nat
    }
}

/// A prefix adds up to at most the whole.
pub proof fn lemma_total_prefix(counts: Seq<usize>, n: int)
    requires
        0 <= n <= counts.len(),
    ensures
        total(counts.take(n)) <= total(counts),
    decreases counts.len() - n,
{
    if n == counts.len() {
        assert(counts.take(n) =~= counts);
    } else {
        assert(counts.take(n + 1).drop_last() =~= counts.take(n));
        lemma_total_prefix(counts, n + 1);
    }
}

/// The sum of counts.
pub fn sum_of(counts: &[usize]) -> (sum: usize)
    requires
        total(counts@) <= usize::MAX,
    ensures
        sum == total(counts@),
{
    let mut sum: usize = 0;
    for i in 0..counts.len()
        invariant
            total(counts@) <= usize::MAX,
            sum == total(counts@.take(i as int)),
    {
        proof {
            assert(counts@.take(i + 1).drop_last() =~= counts@.take(i as int));
            lemma_total_prefix(counts@, i + 1);
        }
        sum = sum + counts[i];
    }
    assert(counts@.take(counts@.len() as int) =~= counts@);
    sum
}

/// A row `n` times.
pub open spec fn copies<T>(one: Seq<T>, n: nat) -> Seq<T>
    decreases n,
{
    if n == 0 {
        Seq::empty()
    } else {
        copies(one, (n - 1) as nat) + one
    }
}

/// Every row as often as its count says.
pub open spec fn repeated<T>(data: Seq<T>, width: int, counts: Seq<usize>) -> Seq<T>
    decreases counts.len(),
{
    if counts.len() == 0 {
        Seq::empty()
    } else {
        repeated(data, width, counts.drop_last()) + copies(
            row(data, width, counts.len() - 1),
            counts.last() as nat,
        )
    }
}

/// Every row as often as its count says.
pub fn repeated_rows<T: Copy>(data: &[T], width: usize, counts: &[usize]) -> (out: Vec<T>)
    requires
        data@.len() == counts@.len() * width,
    ensures
        out@ == repeated(data@, width as int, counts@),
{
    let mut out: Vec<T> = Vec::new();
    let n: usize = data.len();
    for i in 0..counts.len()
        invariant
            n == data@.len(),
            data@.len() == counts@.len() * width,
            out@ == repeated(data@, width as int, counts@.take(i as int)),
    {
        let ghost before = out@;
        proof {
            lemma_row(counts@.len() as int, width as int, i as int);
        }
        assert(out@ =~= before + copies(row(data@, width as int, i as int), 0));
        let times: usize = counts[i];
        for k in 0..times
            invariant
                n == data@.len(),
                i < counts@.len(),
                0 <= i * width,
                (i + 1) * width == i * width + width,
                i * width + width <= data@.len(),
                out@ == before + copies(row(data@, width as int, i as int), k as nat),
        {
            extend_from(&mut out, data, i * width, width);
            assert(out@ =~= before + copies(row(data@, width as int, i as int), (k + 1) as nat));
        }
        assert(counts@.take(i + 1).drop_last() =~= counts@.take(i as int));
    }
    assert(counts@.take(counts@.len() as int) =~= counts@);
    out
}

proof fn lemma_copies_len<T>(one: Seq<T>, n: nat)
    ensures
        copies(one, n).len() == n * one.len(),
    decreases n,
{
    if n > 0 {
        lemma_copies_len(one, (n - 1) as nat);
        assert((n - 1) * one.len() + one.len() == n * one.len()) by (nonlinear_arith);
    } else {
        assert(0 * one.len() == 0) by (nonlinear_arith);
    }
}

/// Repetition gives as many rows as the counts add up to.
pub proof fn law_repetition_gives_the_total<T>(data: Seq<T>, width: int, counts: Seq<usize>)
    requires
        width >= 0,
        data.len() == counts.len() * width,
    ensures
        repeated(data, width, counts).len() == total(counts) * width,
{
    lemma_repeated_len(data, width, counts);
}

proof fn lemma_repeated_len<T>(data: Seq<T>, width: int, counts: Seq<usize>)
    requires
        width >= 0,
        data.len() >= counts.len() * width,
    ensures
        repeated(data, width, counts).len() == total(counts) * width,
    decreases counts.len(),
{
    if counts.len() > 0 {
        let n = counts.len() - 1;
        lemma_row(counts.len() as int, width, n as int);
        lemma_repeated_len(data, width, counts.drop_last());
        lemma_copies_len(row(data, width, n as int), counts.last() as nat);
        assert(total(counts.drop_last()) * width + counts.last() * width == (total(
            counts.drop_last(),
        ) + counts.last()) * width) by (nonlinear_arith);
    } else {
        assert(0 * width == 0) by (nonlinear_arith);
    }
}

} // verus!
