//! What a plan computes: the numbers that a term stands for, and the buffers
//! that it is made from.
use vstd::prelude::*;
use crate::device::{Scalar, Term};
use crate::device::kernels::Kernel;
use crate::device::value::{copy_f16_at, mha_fused, rms_norm, rope_neox, rope_neox_freqs};

verus! {

/// The numbers in a buffer, by position.
pub type Numbers = spec_fn(int) -> int;

/// The arithmetic of a device. Numbers may be rounded in any way: what is
/// proved holds of every choice of these functions. Which numbers each kernel
/// combines is fixed by [`meaning`].
pub struct Machine {
    /// The numbers in the buffer that was given as a step of the plan.
    pub given: spec_fn(nat) -> Numbers,
    /// A sum.
    pub add: spec_fn(int, int) -> int,
    /// A difference.
    pub sub: spec_fn(int, int) -> int,
    /// One column of a normalised row, by kernel, row, scale, shift and what
    /// keeps from dividing by zero.
    pub norm: spec_fn(Kernel, Seq<int>, Numbers, Numbers, Scalar, int) -> int,
    /// One column of the product of a row and a transposed matrix of that many
    /// columns, in brain floats or in half precision.
    pub product: spec_fn(bool, Seq<int>, Numbers, int) -> int,
    /// One column of a head rotated to a position, with factors of the
    /// frequencies where there are any.
    pub rotate: spec_fn(Seq<int>, Option<Numbers>, int, Scalar, int) -> int,
    /// One column of what a query gathers from keys and values, by query, keys,
    /// values, head, heads and key heads.
    pub attend: spec_fn(Seq<int>, Seq<int>, Seq<int>, int, int, int, int) -> int,
    /// A gated activation.
    pub gate: spec_fn(Kernel, int, int) -> int,
    /// The product of two numbers.
    pub times: spec_fn(int, int) -> int,
    /// A recurrent step: a number of the cell or of the hidden state, from the
    /// gates of the frame and of the state, their biases and the cell before.
    pub recur: spec_fn(bool, Seq<int>, Seq<int>, Seq<int>, Seq<int>, Seq<int>, int) -> int,
    /// A number under a row of modulations, in its column.
    pub modulate: spec_fn(int, Seq<int>, int) -> int,
    /// A number and another that a row of modulations admits, in its column.
    pub open_gate: spec_fn(int, Seq<int>, int, int) -> int,
    /// A function of single numbers.
    pub each: spec_fn(Kernel, int, Seq<Scalar>) -> int,
    /// The row of a table that is closest to a row, among the first so many.
    pub nearest: spec_fn(Seq<int>, Numbers, int) -> int,
    /// Whatever the other kernels compute.
    pub other: spec_fn(Kernel, nat, Seq<Numbers>, Seq<Scalar>) -> Numbers,
}

/// `n` numbers from position `from` on.
pub open spec fn piece(x: Numbers, from: int, n: int) -> Seq<int> {
    Seq::new(
        if n > 0 {
            n as nat
        } else {
            0
        },
        |c: int| x(from + c),
    )
}

/// No numbers but zero.
pub open spec fn nothing() -> Numbers {
    |j: int| 0
}

/// Rows of `width` numbers, each normalised by itself.
pub open spec fn normed_rows(
    m: Machine,
    kernel: Kernel,
    x: Numbers,
    scale: Numbers,
    shift: Numbers,
    width: int,
    eps: Scalar,
) -> Numbers {
    |j: int| (m.norm)(kernel, piece(x, j / width * width, width), scale, shift, eps, j % width)
}

/// Rows of `k` numbers, each mapped to `n` by a matrix.
pub open spec fn product_rows(m: Machine, brain: bool, x: Numbers, weight: Numbers, n: int, k: int) -> Numbers {
    |j: int| (m.product)(brain, piece(x, j / n * k, k), weight, j % n)
}

/// Tokens of `heads` heads, token `i` rotated to position `pos + i`.
pub open spec fn rotated_rows(
    m: Machine,
    x: Numbers,
    factors: Option<Numbers>,
    heads: int,
    width: int,
    pos: int,
    theta: Scalar,
) -> Numbers {
    |j: int|
        (m.rotate)(
            piece(x, j / width * width, width),
            factors,
            pos + j / width / heads,
            theta,
            j % width,
        )
}

/// The lesser of two numbers.
pub open spec fn least(a: int, b: int) -> int {
    if a < b {
        a
    } else {
        b
    }
}

/// Tokens from position `pos` on, token `i` attending to the `pos + i + 1`
/// tokens up to itself, of at most `seen`.
pub open spec fn attended_rows(
    m: Machine,
    q: Numbers,
    k: Numbers,
    v: Numbers,
    width: int,
    heads: int,
    kv_heads: int,
    seen: int,
    pos: int,
) -> Numbers {
    |j: int|
        {
            let n = least(pos + j / width / heads + 1, seen) * (kv_heads * width);
            (m.attend)(
                piece(q, j / width * width, width),
                piece(k, 0, n),
                piece(v, 0, n),
                j / width % heads,
                heads,
                kv_heads,
                j % width,
            )
        }
}

/// The first `n` numbers of `x` with those of `d` added.
pub open spec fn increased(m: Machine, x: Numbers, d: Numbers, n: int) -> Numbers {
    |j: int|
        if j < n {
            (m.add)(x(j), d(j))
        } else {
            x(j)
        }
}

/// Rows of `width` numbers with a row added to each.
pub open spec fn biased_rows(m: Machine, x: Numbers, bias: Numbers, width: int) -> Numbers {
    |j: int| (m.add)(x(j), bias(j % width))
}

/// Activated numbers, each gating another.
pub open spec fn gated(m: Machine, kernel: Kernel, x: Numbers, y: Numbers) -> Numbers {
    |j: int| (m.gate)(kernel, x(j), y(j))
}

/// A function of each number.
pub open spec fn mapped(m: Machine, kernel: Kernel, x: Numbers, s: Seq<Scalar>) -> Numbers {
    |j: int| (m.each)(kernel, x(j), s)
}

/// Rows of `width` numbers, each under its own row of `parts` modulations.
pub open spec fn modulated_rows(m: Machine, x: Numbers, by: Numbers, width: int, parts: int) -> Numbers {
    |j: int|
        (m.modulate)(x(j), piece(by, j / width * (width * parts), width * parts), j % width)
}

/// Rows of `width` numbers, each with what its own row of modulations admits.
pub open spec fn admitted_rows(m: Machine, x: Numbers, by: Numbers, d: Numbers, width: int) -> Numbers {
    |j: int|
        (m.open_gate)(x(j), piece(by, j / width * (width * 3), width * 3), d(j), j % width)
}

/// Rows of `a` numbers, each followed by a row of `b` numbers.
pub open spec fn joined(x: Numbers, y: Numbers, a: int, b: int) -> Numbers {
    |j: int|
        if j % (a + b) < a {
            x(j / (a + b) * a + j % (a + b))
        } else {
            y(j / (a + b) * b + j % (a + b) - a)
        }
}

/// What a recurrent step makes of the cell, or of the hidden state.
pub open spec fn recurred(
    m: Machine,
    cell: bool,
    gates: Seq<int>,
    remembered: Seq<int>,
    bias_ih: Seq<int>,
    bias_hh: Seq<int>,
    before: Seq<int>,
) -> Numbers {
    |j: int| (m.recur)(cell, gates, remembered, bias_ih, bias_hh, before, j)
}

/// For each named row of a table of rows of `width` numbers, that row.
pub open spec fn gathered(table: Numbers, names: Numbers, width: int) -> Numbers {
    |j: int| table(names(j / width) * width + j % width)
}

/// Numbers, each times its column's number out of a row of `width`.
pub open spec fn scaled_rows(m: Machine, x: Numbers, scale: Numbers, width: int) -> Numbers {
    |j: int| (m.times)(x(j), scale(j % width))
}

/// Rows of `cols` numbers, read column by column.
pub open spec fn transposed(x: Numbers, rows: int, cols: int) -> Numbers {
    |j: int| x(j % rows * cols + j / rows)
}

/// Sums of numbers in the same place.
pub open spec fn summed(m: Machine, x: Numbers, y: Numbers) -> Numbers {
    |j: int| (m.add)(x(j), y(j))
}

/// `into`, with `n` numbers of `x` in the places from `offset` on.
pub open spec fn copied(x: Numbers, into: Numbers, n: int, offset: int) -> Numbers {
    |j: int|
        if offset <= j < offset + n {
            x(j - offset)
        } else {
            into(j)
        }
}

/// The numbers from `offset` on.
pub open spec fn from(x: Numbers, offset: int) -> Numbers {
    |j: int| x(j + offset)
}

/// For each row of `width` numbers, the row of a table that is closest to it.
pub open spec fn nearest_rows(m: Machine, x: Numbers, table: Numbers, entries: int, width: int) -> Numbers {
    |j: int| (m.nearest)(piece(x, j * width, width), table, entries)
}

/// Rows of `width` numbers, each without the row of a table that is named for
/// it.
pub open spec fn reduced_rows(
    m: Machine,
    x: Numbers,
    table: Numbers,
    names: Numbers,
    rows: int,
    width: int,
) -> Numbers {
    |j: int|
        if 0 <= j < rows * width {
            (m.sub)(x(j), table(names(j / width) * width + j % width))
        } else {
            x(j)
        }
}

/// The numbers that a kernel leaves, given those that it reads.
pub open spec fn meaning(
    m: Machine,
    kernel: Kernel,
    port: nat,
    a: Seq<Numbers>,
    s: Seq<Scalar>,
) -> Numbers {
    match kernel {
        Kernel::CopyF16At => copied(a[0], a[1], s[0].count(), s[1].count()),
        Kernel::AppendChannelBlock => copied(
            a[0],
            a[1],
            s[0].count() * s[3].count(),
            s[2].count() * s[3].count(),
        ),
        Kernel::CopyFrom => from(a[0], s[1].count()),
        Kernel::CopyBuffer => a[0],
        Kernel::RmsNorm | Kernel::RmsNormF32in | Kernel::RmsNormF32inBf16 => normed_rows(
            m,
            kernel,
            a[0],
            a[1],
            nothing(),
            s[1].count(),
            s[2],
        ),
        Kernel::LayerNormF32in => normed_rows(m, kernel, a[0], a[1], a[2], s[1].count(), s[2]),
        Kernel::GemvF16 => product_rows(m, false, a[0], a[1], s[0].count(), s[1].count()),
        Kernel::GemvBf16 => product_rows(m, true, a[0], a[1], s[0].count(), s[1].count()),
        Kernel::GemvDualF16 => product_rows(
            m,
            false,
            a[0],
            a[1 + port as int],
            s[0].count(),
            s[1].count(),
        ),
        Kernel::GemvDualBf16 => product_rows(
            m,
            true,
            a[0],
            a[1 + port as int],
            s[0].count(),
            s[1].count(),
        ),
        Kernel::MatmulF16 => product_rows(m, false, a[0], a[1], s[1].count(), s[2].count()),
        Kernel::MatmulBf16 => product_rows(m, true, a[0], a[1], s[1].count(), s[2].count()),
        Kernel::AddBiasF16Inplace | Kernel::AddBiasBf16Inplace => biased_rows(
            m,
            a[0],
            a[1],
            s[1].count(),
        ),
        Kernel::RopeNeox => rotated_rows(
            m,
            a[0],
            None,
            s[1].count(),
            s[2].count(),
            s[3].count(),
            s[4],
        ),
        Kernel::RopeNeoxFreqs => rotated_rows(
            m,
            a[0],
            Some(a[1]),
            s[1].count(),
            s[2].count(),
            s[3].count(),
            s[4],
        ),
        Kernel::MhaFused => attended_rows(
            m,
            a[0],
            a[1],
            a[2],
            s[0].count(),
            s[1].count(),
            s[2].count(),
            s[4].count(),
            s[5].count(),
        ),
        Kernel::AddInplaceF32F16 | Kernel::AddInplaceF32Bf16 => increased(
            m,
            a[0],
            a[1],
            s[0].count(),
        ),
        Kernel::AddF16 | Kernel::AddBf16 => summed(m, a[0], a[1]),
        Kernel::Silu | Kernel::SiluBf16 => gated(m, kernel, a[0], a[1]),
        Kernel::SiluActF16
        | Kernel::SiluActBf16
        | Kernel::GeluErfF16
        | Kernel::LeakyReluF16
        | Kernel::ScaleF16
        | Kernel::ThirdF16
        | Kernel::Elu
        | Kernel::EluF16
        | Kernel::Relu
        | Kernel::ReluBf16
        | Kernel::Tanh
        | Kernel::Sigmoid
        | Kernel::CopyF32ToF16
        | Kernel::CopyF16ToF32
        | Kernel::CopyBf16ToF16
        | Kernel::CopyF16ToBf16
        | Kernel::CopyBf16ToF32 => mapped(m, kernel, a[0], s.skip(1)),
        Kernel::ModulateBf16Batched => modulated_rows(m, a[0], a[1], s[1].count(), s[2].count()),
        Kernel::GatedResidualBf16Batched => admitted_rows(m, a[0], a[1], a[2], s[1].count()),
        Kernel::LstmCellF16 => {
            let h = s[0].count();
            let next = recurred(
                m,
                port == 1,
                piece(a[0], s[1].count() * (4 * h), 4 * h),
                piece(a[1], 0, 4 * h),
                piece(a[2], 0, 4 * h),
                piece(a[3], 0, 4 * h),
                piece(a[5], 0, h),
            );
            if port == 2 {
                copied(next, a[6], h, s[2].count() * h)
            } else {
                next
            }
        },
        Kernel::GatherRowsF16 | Kernel::GatherRowsBf16 => gathered(a[0], a[1], s[1].count()),
        Kernel::MulF16Broadcast => scaled_rows(m, a[0], a[1], s[1].count()),
        Kernel::TransposeF16 => transposed(a[0], s[0].count(), s[1].count()),
        Kernel::JoinRows => joined(a[0], a[1], s[1].count(), s[2].count()),
        Kernel::NearestCodebook => nearest_rows(m, a[0], a[1], s[1].count(), s[2].count()),
        Kernel::SubtractCodebook => reduced_rows(
            m,
            a[0],
            a[1],
            a[2],
            s[0].count(),
            s[1].count(),
        ),
        _ => (m.other)(kernel, port, a, s),
    }
}

/// The numbers that a term stands for.
pub open spec fn numbers(m: Machine, t: Term) -> Numbers
    decreases t,
{
    match t {
        Term::Zeros(_) => nothing(),
        Term::Given(step) => (m.given)(step),
        Term::Integers(list) => |j: int| list[j] as int,
        Term::Computed { kernel, port, args, scalars } => meaning(
            m,
            kernel,
            port,
            all_numbers(m, args),
            scalars,
        ),
    }
}

/// The numbers that terms stand for.
pub open spec fn all_numbers(m: Machine, ts: Seq<Term>) -> Seq<Numbers>
    decreases ts,
{
    if ts.len() == 0 {
        Seq::empty()
    } else {
        all_numbers(m, ts.drop_last()).push(numbers(m, ts.last()))
    }
}

/// The buffers that a term is made from: those that were given, zeros and
/// uploaded integers.
pub open spec fn origins(t: Term) -> Set<Term>
    decreases t,
{
    match t {
        Term::Computed { args, .. } => all_origins(args),
        _ => set![t],
    }
}

/// The buffers that terms are made from.
pub open spec fn all_origins(ts: Seq<Term>) -> Set<Term>
    decreases ts,
{
    if ts.len() == 0 {
        Set::empty()
    } else {
        all_origins(ts.drop_last()).union(origins(ts.last()))
    }
}

/// Whether everything that `part` is made from goes into `t`.
pub open spec fn made_from(t: Term, part: Term) -> bool {
    origins(part).subset_of(origins(t))
}

/// Products with these weights are nothing.
pub open spec fn silent(m: Machine, brain: bool, weight: Term) -> bool {
    forall|row: Seq<int>, c: int| #[trigger] (m.product)(brain, row, numbers(m, weight), c) == 0
}

/// All numbers of `t` are 0.
pub open spec fn blank(m: Machine, t: Term) -> bool {
    forall|j: int| #[trigger] numbers(m, t)(j) == 0
}

/// Both have the same numbers.
pub open spec fn alike(m: Machine, x: Term, y: Term) -> bool {
    forall|j: int| #[trigger] numbers(m, x)(j) == numbers(m, y)(j)
}

/// Nothing added changes nothing.
pub open spec fn neutral(m: Machine) -> bool {
    &&& forall|a: int| #[trigger] (m.add)(a, 0) == a
    &&& forall|a: int| #[trigger] (m.add)(0, a) == a
}

/// Nothing stays nothing, whatever it is multiplied by.
pub open spec fn absorbing(m: Machine) -> bool {
    forall|a: int| #[trigger] (m.times)(0, a) == 0
}

/// Every number of a row is 0.
pub open spec fn zero_row(row: Seq<int>) -> bool {
    forall|i: int| 0 <= i < row.len() ==> #[trigger] row[i] == 0
}

/// Out of nothing comes nothing: gates let nothing through where nothing comes
/// up, products of zeros are 0, attention gathers nothing from values of zero,
/// and conversions keep 0.
pub open spec fn still(m: Machine) -> bool {
    &&& forall|kernel: Kernel, a: int| #[trigger] (m.gate)(kernel, a, 0) == 0
    &&& forall|brain: bool, row: Seq<int>, weight: Numbers, c: int|
        zero_row(row) ==> #[trigger] (m.product)(brain, row, weight, c) == 0
    &&& forall|q: Seq<int>, k: Seq<int>, v: Seq<int>, head: int, heads: int, kv_heads: int, c: int|
        zero_row(v) ==> #[trigger] (m.attend)(q, k, v, head, heads, kv_heads, c) == 0
    &&& (m.each)(Kernel::CopyBf16ToF16, 0, Seq::empty()) == 0
    &&& (m.each)(Kernel::CopyF16ToBf16, 0, Seq::empty()) == 0
}

/// The numbers that a kernel of 1 operand leaves.
pub broadcast proof fn lemma_numbers1(
    m: Machine,
    kernel: Kernel,
    port: nat,
    args: Seq<Term>,
    s: Seq<Scalar>,
)
    requires
        args.len() == 1,
    ensures
        #[trigger] numbers(m, (Term::Computed { kernel, port, args, scalars: s })) == meaning(
            m,
            kernel,
            port,
            seq![numbers(m, args[0])],
            s,
        ),
{
    reveal_with_fuel(all_numbers, 2);
    assert(args.last() == args[0]);
    assert(all_numbers(m, args) =~= seq![numbers(m, args[0])]);
}

/// The numbers that a kernel of 2 operands leaves.
pub broadcast proof fn lemma_numbers2(
    m: Machine,
    kernel: Kernel,
    port: nat,
    args: Seq<Term>,
    s: Seq<Scalar>,
)
    requires
        args.len() == 2,
    ensures
        #[trigger] numbers(m, (Term::Computed { kernel, port, args, scalars: s })) == meaning(
            m,
            kernel,
            port,
            seq![numbers(m, args[0]), numbers(m, args[1])],
            s,
        ),
{
    reveal_with_fuel(all_numbers, 3);
    assert(args.last() == args[1]);
    assert(args.drop_last().last() == args[0]);
    assert(all_numbers(m, args) =~= seq![numbers(m, args[0]), numbers(m, args[1])]);
}

/// The numbers that a kernel of 3 operands leaves.
pub broadcast proof fn lemma_numbers3(
    m: Machine,
    kernel: Kernel,
    port: nat,
    args: Seq<Term>,
    s: Seq<Scalar>,
)
    requires
        args.len() == 3,
    ensures
        #[trigger] numbers(m, (Term::Computed { kernel, port, args, scalars: s })) == meaning(
            m,
            kernel,
            port,
            seq![numbers(m, args[0]), numbers(m, args[1]), numbers(m, args[2])],
            s,
        ),
{
    reveal_with_fuel(all_numbers, 4);
    assert(args.last() == args[2]);
    assert(args.drop_last().last() == args[1]);
    assert(args.drop_last().drop_last().last() == args[0]);
    assert(all_numbers(m, args) =~= seq![numbers(m, args[0]), numbers(m, args[1]), numbers(m, args[2])]);
}

/// The numbers that a kernel of 7 operands leaves.
pub proof fn lemma_numbers7(
    m: Machine,
    kernel: Kernel,
    port: nat,
    args: Seq<Term>,
    s: Seq<Scalar>,
)
    requires
        args.len() == 7,
    ensures
        numbers(m, (Term::Computed { kernel, port, args, scalars: s })) == meaning(
            m,
            kernel,
            port,
            Seq::new(7, |i: int| numbers(m, args[i])),
            s,
        ),
{
    lemma_all_numbers(m, args);
    assert(all_numbers(m, args) =~= Seq::new(7, |i: int| numbers(m, args[i])));
}

/// Terms stand for their numbers, one by one.
proof fn lemma_all_numbers(m: Machine, ts: Seq<Term>)
    ensures
        all_numbers(m, ts).len() == ts.len(),
        forall|i: int| 0 <= i < ts.len() ==> #[trigger] all_numbers(m, ts)[i] == numbers(m, ts[i]),
    decreases ts.len(),
{
    reveal_with_fuel(all_numbers, 2);
    if ts.len() > 0 {
        lemma_all_numbers(m, ts.drop_last());
    }
}

/// The numbers that kernels leave.
pub broadcast group group_numbers {
    lemma_numbers1,
    lemma_numbers2,
    lemma_numbers3,
}

/// What a kernel of 0 operands makes its result from.
pub broadcast proof fn lemma_origins0(kernel: Kernel, port: nat, args: Seq<Term>, s: Seq<Scalar>)
    requires
        args.len() == 0,
    ensures
        #[trigger] origins((Term::Computed { kernel, port, args, scalars: s })) == Set::<Term>::empty(),
{
    reveal_with_fuel(all_origins, 1);
    assert(all_origins(args) =~= Set::<Term>::empty());
}

/// What a kernel of 1 operand makes its result from.
pub broadcast proof fn lemma_origins1(kernel: Kernel, port: nat, args: Seq<Term>, s: Seq<Scalar>)
    requires
        args.len() == 1,
    ensures
        #[trigger] origins((Term::Computed { kernel, port, args, scalars: s })) == origins(args[0]),
{
    reveal_with_fuel(all_origins, 2);
    assert(args.last() == args[0]);
    assert(all_origins(args) =~= origins(args[0]));
}

/// What a kernel of 2 operands makes its result from.
pub broadcast proof fn lemma_origins2(kernel: Kernel, port: nat, args: Seq<Term>, s: Seq<Scalar>)
    requires
        args.len() == 2,
    ensures
        #[trigger] origins((Term::Computed { kernel, port, args, scalars: s })) == origins(args[0]).union(origins(args[1])),
{
    reveal_with_fuel(all_origins, 3);
    assert(args.last() == args[1]);
    assert(args.drop_last().last() == args[0]);
    assert(all_origins(args) =~= origins(args[0]).union(origins(args[1])));
}

/// What a kernel of 3 operands makes its result from.
pub broadcast proof fn lemma_origins3(kernel: Kernel, port: nat, args: Seq<Term>, s: Seq<Scalar>)
    requires
        args.len() == 3,
    ensures
        #[trigger] origins((Term::Computed { kernel, port, args, scalars: s })) == origins(args[0]).union(origins(args[1])).union(origins(args[2])),
{
    reveal_with_fuel(all_origins, 4);
    assert(args.last() == args[2]);
    assert(args.drop_last().last() == args[1]);
    assert(args.drop_last().drop_last().last() == args[0]);
    assert(all_origins(args) =~= origins(args[0]).union(origins(args[1])).union(origins(args[2])));
}

/// What a kernel of 4 operands makes its result from.
pub broadcast proof fn lemma_origins4(kernel: Kernel, port: nat, args: Seq<Term>, s: Seq<Scalar>)
    requires
        args.len() == 4,
    ensures
        #[trigger] origins((Term::Computed { kernel, port, args, scalars: s })) == origins(args[0]).union(origins(args[1])).union(origins(args[2])).union(origins(args[3])),
{
    reveal_with_fuel(all_origins, 5);
    assert(args.last() == args[3]);
    assert(args.drop_last().last() == args[2]);
    assert(args.drop_last().drop_last().last() == args[1]);
    assert(args.drop_last().drop_last().drop_last().last() == args[0]);
    assert(all_origins(args) =~= origins(args[0]).union(origins(args[1])).union(origins(args[2])).union(origins(args[3])));
}

/// What a kernel of 6 operands makes its result from.
pub broadcast proof fn lemma_origins6(kernel: Kernel, port: nat, args: Seq<Term>, s: Seq<Scalar>)
    requires
        args.len() == 6,
    ensures
        #[trigger] origins((Term::Computed { kernel, port, args, scalars: s })) == origins(args[0]).union(origins(args[1])).union(origins(args[2])).union(origins(args[3])).union(origins(args[4])).union(origins(args[5])),
{
    reveal_with_fuel(all_origins, 7);
    assert(args.last() == args[5]);
    assert(args.drop_last().last() == args[4]);
    assert(args.drop_last().drop_last().last() == args[3]);
    assert(args.drop_last().drop_last().drop_last().last() == args[2]);
    assert(args.drop_last().drop_last().drop_last().drop_last().last() == args[1]);
    assert(args.drop_last().drop_last().drop_last().drop_last().drop_last().last() == args[0]);
    assert(all_origins(args) =~= origins(args[0]).union(origins(args[1])).union(origins(args[2])).union(origins(args[3])).union(origins(args[4])).union(origins(args[5])));
}

/// What a kernel of 7 operands makes its result from.
pub broadcast proof fn lemma_origins7(kernel: Kernel, port: nat, args: Seq<Term>, s: Seq<Scalar>)
    requires
        args.len() == 7,
    ensures
        #[trigger] origins((Term::Computed { kernel, port, args, scalars: s })) == origins(args[0]).union(origins(args[1])).union(origins(args[2])).union(origins(args[3])).union(origins(args[4])).union(origins(args[5])).union(origins(args[6])),
{
    reveal_with_fuel(all_origins, 8);
    assert(args.last() == args[6]);
    assert(args.drop_last().last() == args[5]);
    assert(args.drop_last().drop_last().last() == args[4]);
    assert(args.drop_last().drop_last().drop_last().last() == args[3]);
    assert(args.drop_last().drop_last().drop_last().drop_last().last() == args[2]);
    assert(args.drop_last().drop_last().drop_last().drop_last().drop_last().last() == args[1]);
    assert(args.drop_last().drop_last().drop_last().drop_last().drop_last().drop_last().last() == args[0]);
    assert(all_origins(args) =~= origins(args[0]).union(origins(args[1])).union(origins(args[2])).union(origins(args[3])).union(origins(args[4])).union(origins(args[5])).union(origins(args[6])));
}

/// What kernels make their results from.
pub broadcast group group_origins {
    lemma_origins0,
    lemma_origins1,
    lemma_origins2,
    lemma_origins3,
    lemma_origins4,
    lemma_origins6,
    lemma_origins7,
}

/// What normalising heads means.
pub proof fn lemma_rms_norm(m: Machine, x: Term, weight: Term, n_rows: u32, dim: u32, eps: Scalar)
    ensures
        numbers(m, rms_norm(x, weight, n_rows, dim, eps)) == normed_rows(
            m,
            Kernel::RmsNorm,
            numbers(m, x),
            numbers(m, weight),
            nothing(),
            dim as int,
            eps,
        ),
{
    broadcast use group_numbers;

    assert(rms_norm(x, weight, n_rows, dim, eps)->args.len() == 2);
}

/// What rotating means.
pub proof fn lemma_rope(
    m: Machine,
    x: Term,
    seq_len: u32,
    heads: u32,
    width: u32,
    pos: u32,
    theta: Scalar,
)
    ensures
        numbers(m, rope_neox(x, seq_len, heads, width, pos, theta)) == rotated_rows(
            m,
            numbers(m, x),
            None,
            heads as int,
            width as int,
            pos as int,
            theta,
        ),
{
    broadcast use group_numbers;

    assert(rope_neox(x, seq_len, heads, width, pos, theta)->args.len() == 1);
}

/// What rotating with factors means.
pub proof fn lemma_rope_freqs(
    m: Machine,
    x: Term,
    factors: Term,
    seq_len: u32,
    heads: u32,
    width: u32,
    pos: u32,
    theta: Scalar,
)
    ensures
        numbers(m, rope_neox_freqs(x, factors, seq_len, heads, width, pos, theta)) == rotated_rows(
            m,
            numbers(m, x),
            Some(numbers(m, factors)),
            heads as int,
            width as int,
            pos as int,
            theta,
        ),
{
    broadcast use group_numbers;

    assert(rope_neox_freqs(x, factors, seq_len, heads, width, pos, theta)->args.len() == 2);
}

/// What copying into a buffer means.
pub proof fn lemma_copy(m: Machine, src: Term, dst: Term, n: u32, offset: usize)
    ensures
        numbers(m, copy_f16_at(src, dst, n, offset)) == copied(
            numbers(m, src),
            numbers(m, dst),
            n as int,
            offset as int,
        ),
{
    broadcast use group_numbers;

    assert(copy_f16_at(src, dst, n, offset)->args.len() == 2);
}

/// What attending means.
pub proof fn lemma_mha(
    m: Machine,
    q: Term,
    k: Term,
    v: Term,
    width: u32,
    heads: u32,
    kv_heads: u32,
    seq_len: u32,
    kv_len: u32,
    pos: u32,
)
    ensures
        numbers(m, mha_fused(q, k, v, width, heads, kv_heads, seq_len, kv_len, pos))
            == attended_rows(
            m,
            numbers(m, q),
            numbers(m, k),
            numbers(m, v),
            width as int,
            heads as int,
            kv_heads as int,
            kv_len as int,
            pos as int,
        ),
{
    broadcast use group_numbers;

    assert(mha_fused(q, k, v, width, heads, kv_heads, seq_len, kv_len, pos)->args.len() == 3);
}

} // verus!
