//! What the recurrent layers promise: every row is the state after its frame,
//! states carry over from frame to frame, and the reverse direction is the
//! forward one on frames in reverse.
use vstd::prelude::*;
use crate::device::{Plan, Scalar, Term};
use crate::device::kernels::Kernel;
use crate::device::meaning::{
    Machine, Numbers, copied, group_numbers, lemma_numbers7, nothing, numbers, piece, product_rows,
    recurred,
};
use crate::device::rows::{lemma_place, lemma_product_row, lemma_rows_agree, same_row};
use crate::device::value::{
    join_rows, lstm_cell_f16_cell, lstm_cell_f16_hidden, lstm_cell_f16_output, matmul_f16,
};
use crate::kokoro::lstm::{
    KokoroBiLstm, LstmDirection, direction_output, frame_of, lstm_output, lstm_steps,
};

verus! {

/// What a step makes of the state before it and of the gates of its frame.
pub open spec fn stepped(
    m: Machine,
    w: LstmDirection,
    v: Seq<Term>,
    h: int,
    state: (Numbers, Numbers),
    gates: Seq<int>,
) -> (Numbers, Numbers) {
    let remembered = piece(
        product_rows(m, false, state.0, numbers(m, v[w.weight_hh as int]), 4 * h, h),
        0,
        4 * h,
    );
    let ih = piece(numbers(m, v[w.bias_ih as int]), 0, 4 * h);
    let hh = piece(numbers(m, v[w.bias_hh as int]), 0, 4 * h);
    let cell = piece(state.1, 0, h);
    (
        recurred(m, false, gates, remembered, ih, hh, cell),
        recurred(m, true, gates, remembered, ih, hh, cell),
    )
}

/// The gates of the first `n` frames, in the order in which they are read.
pub open spec fn gates_read(
    m: Machine,
    gates: Term,
    frames: int,
    h: int,
    reverse: bool,
    n: nat,
) -> Seq<Seq<int>> {
    Seq::new(
        n,
        |k: int| piece(numbers(m, gates), frame_of(k, frames, reverse) * (4 * h), 4 * h),
    )
}

/// What a step leaves.
proof fn lemma_step(
    m: Machine,
    w: LstmDirection,
    plan: Plan,
    gates: Term,
    frames: int,
    h: u32,
    reverse: bool,
    n: nat,
)
    requires
        0 < n <= frames <= u32::MAX,
        4 * h <= u32::MAX,
    ensures
        ({
            let before = lstm_steps(w, plan, gates, frames, h, reverse, (n - 1) as nat);
            let after = lstm_steps(w, plan, gates, frames, h, reverse, n);
            let t = frame_of(n - 1, frames, reverse);
            let s = stepped(
                m,
                w,
                plan.values(),
                h as int,
                (numbers(m, before.hidden), numbers(m, before.cell)),
                piece(numbers(m, gates), t * (4 * h), 4 * h),
            );
            &&& numbers(m, after.hidden) == s.0
            &&& numbers(m, after.cell) == s.1
            &&& numbers(m, after.output) == copied(s.0, numbers(m, before.output), h as int, t * h)
        }),
{
    broadcast use group_numbers;

    let v = plan.values();
    let s = lstm_steps(w, plan, gates, frames, h, reverse, (n - 1) as nat);
    let t = frame_of(n - 1, frames, reverse) as u32;
    let g = matmul_f16(s.hidden, v[w.weight_hh as int], 1, (4 * h) as u32, h);
    assert(g->args.len() == 2);
    let (ih, hh) = (v[w.bias_ih as int], v[w.bias_hh as int]);
    let args = seq![gates, g, ih, hh, s.hidden, s.cell, s.output];
    let scalars = seq![Scalar::Count(h), Scalar::Count(t), Scalar::Count(t)];
    let kernel = Kernel::LstmCellF16;
    lemma_numbers7(m, kernel, 0, args, scalars);
    lemma_numbers7(m, kernel, 1, args, scalars);
    lemma_numbers7(m, kernel, 2, args, scalars);
    assert(lstm_cell_f16_hidden(gates, g, ih, hh, s.hidden, s.cell, s.output, h, t, t) == (
    Term::Computed { kernel, port: 0, args, scalars }));
    assert(lstm_cell_f16_cell(gates, g, ih, hh, s.hidden, s.cell, s.output, h, t, t) == (
    Term::Computed { kernel, port: 1, args, scalars }));
    assert(lstm_cell_f16_output(gates, g, ih, hh, s.hidden, s.cell, s.output, h, t, t) == (
    Term::Computed { kernel, port: 2, args, scalars }));
}

/// States carry over: the state after `n` frames is what their gates make, one
/// after the other, of a state of zeros.
pub proof fn law_states_carry_over(
    m: Machine,
    w: LstmDirection,
    plan: Plan,
    gates: Term,
    frames: int,
    h: u32,
    reverse: bool,
    n: nat,
)
    requires
        n <= frames <= u32::MAX,
        4 * h <= u32::MAX,
    ensures
        ({
            let s = lstm_steps(w, plan, gates, frames, h, reverse, n);
            (numbers(m, s.hidden), numbers(m, s.cell)) == gates_read(
                m,
                gates,
                frames,
                h as int,
                reverse,
                n,
            ).fold_left(
                (nothing(), nothing()),
                |state: (Numbers, Numbers), row: Seq<int>|
                    stepped(m, w, plan.values(), h as int, state, row),
            )
        }),
    decreases n,
{
    let f = |state: (Numbers, Numbers), row: Seq<int>|
        stepped(m, w, plan.values(), h as int, state, row);
    let rows = gates_read(m, gates, frames, h as int, reverse, n);
    reveal_with_fuel(Seq::fold_left, 2);
    if n > 0 {
        let j = (n - 1) as nat;
        law_states_carry_over(m, w, plan, gates, frames, h, reverse, j);
        lemma_step(m, w, plan, gates, frames, h, reverse, n);
        assert(rows.drop_last() =~= gates_read(m, gates, frames, h as int, reverse, j));
        assert(rows.last() == piece(
            numbers(m, gates),
            frame_of(n - 1, frames, reverse) * (4 * h),
            4 * h,
        ));
        assert(rows.fold_left((nothing(), nothing()), f) == f(
            rows.drop_last().fold_left((nothing(), nothing()), f),
            rows.last(),
        ));
    }
}

/// Every row is the hidden state after its frame: row `frame_of(k)` is what lies
/// there after step `k`, and later steps leave it.
pub proof fn law_rows_are_the_states_after_their_frames(
    m: Machine,
    w: LstmDirection,
    plan: Plan,
    gates: Term,
    frames: int,
    h: u32,
    reverse: bool,
    n: nat,
    k: int,
    c: int,
)
    requires
        0 <= k < n <= frames <= u32::MAX,
        4 * h <= u32::MAX,
        0 <= c < h,
    ensures
        numbers(m, lstm_steps(w, plan, gates, frames, h, reverse, n).output)(
            frame_of(k, frames, reverse) * h + c,
        ) == numbers(
            m,
            lstm_steps(w, plan, gates, frames, h, reverse, (k + 1) as nat).hidden,
        )(c),
    decreases n,
{
    lemma_step(m, w, plan, gates, frames, h, reverse, n);
    let t = frame_of(n - 1, frames, reverse);
    let r = frame_of(k, frames, reverse);
    if k == n - 1 {
        assert(t * h <= r * h + c < t * h + h);
    } else {
        law_rows_are_the_states_after_their_frames(
            m,
            w,
            plan,
            gates,
            frames,
            h,
            reverse,
            (n - 1) as nat,
            k,
            c,
        );
        assert(r * h + c < t * h || t * h + h <= r * h + c) by (nonlinear_arith)
            requires
                r != t,
                0 <= c < h,
        ;
    }
}

/// Equal gates, in the order in which they are read, give equal states.
proof fn lemma_equal_states(
    m: Machine,
    w: LstmDirection,
    plan: Plan,
    gates_x: Term,
    gates_y: Term,
    frames_x: int,
    frames_y: int,
    h: u32,
    reverse_x: bool,
    reverse_y: bool,
    n: nat,
)
    requires
        n <= frames_x <= u32::MAX,
        n <= frames_y <= u32::MAX,
        4 * h <= u32::MAX,
        forall|k: int|
            0 <= k < n ==> same_row(
                numbers(m, gates_x),
                #[trigger] frame_of(k, frames_x, reverse_x),
                numbers(m, gates_y),
                frame_of(k, frames_y, reverse_y),
                4 * h,
            ),
    ensures
        numbers(m, lstm_steps(w, plan, gates_x, frames_x, h, reverse_x, n).hidden) == numbers(
            m,
            lstm_steps(w, plan, gates_y, frames_y, h, reverse_y, n).hidden,
        ),
{
    law_states_carry_over(m, w, plan, gates_x, frames_x, h, reverse_x, n);
    law_states_carry_over(m, w, plan, gates_y, frames_y, h, reverse_y, n);
    let a = gates_read(m, gates_x, frames_x, h as int, reverse_x, n);
    let b = gates_read(m, gates_y, frames_y, h as int, reverse_y, n);
    assert forall|k: int| 0 <= k < n implies a[k] == b[k] by {
        let t = frame_of(k, frames_x, reverse_x);
        assert(same_row(
            numbers(m, gates_x),
            t,
            numbers(m, gates_y),
            frame_of(k, frames_y, reverse_y),
            4 * h,
        ));
    }
    assert(a =~= b);
}

/// The gates of a frame depend on its row alone.
proof fn lemma_gates_row(
    m: Machine,
    x: Term,
    y: Term,
    weight: Term,
    frames_x: int,
    frames_y: int,
    input_size: u32,
    h: u32,
    i: int,
    k: int,
)
    requires
        4 * h <= u32::MAX,
        same_row(numbers(m, x), i, numbers(m, y), k, input_size as int),
    ensures
        same_row(
            numbers(m, matmul_f16(x, weight, frames_x as u32, (4 * h) as u32, input_size)),
            i,
            numbers(m, matmul_f16(y, weight, frames_y as u32, (4 * h) as u32, input_size)),
            k,
            4 * h,
        ),
{
    broadcast use group_numbers;

    assert(matmul_f16(x, weight, frames_x as u32, (4 * h) as u32, input_size)->args.len() == 2);
    assert(matmul_f16(y, weight, frames_y as u32, (4 * h) as u32, input_size)->args.len() == 2);
    lemma_product_row(
        m,
        false,
        numbers(m, x),
        numbers(m, y),
        numbers(m, weight),
        4 * h,
        input_size as int,
        i,
        k,
    );
}

/// Two runs that read equal frames up to step `k` leave the same row there.
proof fn lemma_equal_rows(
    m: Machine,
    w: LstmDirection,
    plan: Plan,
    x: Term,
    y: Term,
    frames_x: int,
    frames_y: int,
    input_size: u32,
    h: u32,
    reverse_x: bool,
    reverse_y: bool,
    k: int,
)
    requires
        0 <= k < frames_x <= u32::MAX,
        k < frames_y <= u32::MAX,
        4 * h <= u32::MAX,
        forall|i: int|
            0 <= i <= k ==> same_row(
                numbers(m, x),
                #[trigger] frame_of(i, frames_x, reverse_x),
                numbers(m, y),
                frame_of(i, frames_y, reverse_y),
                input_size as int,
            ),
    ensures
        same_row(
            numbers(m, direction_output(w, plan, x, frames_x, input_size, h, reverse_x)),
            frame_of(k, frames_x, reverse_x),
            numbers(m, direction_output(w, plan, y, frames_y, input_size, h, reverse_y)),
            frame_of(k, frames_y, reverse_y),
            h as int,
        ),
{
    reveal(direction_output);
    let weight = plan.values()[w.weight_ih as int];
    let gx = matmul_f16(x, weight, frames_x as u32, (4 * h) as u32, input_size);
    let gy = matmul_f16(y, weight, frames_y as u32, (4 * h) as u32, input_size);
    assert forall|i: int| 0 <= i < k + 1 implies same_row(
        numbers(m, gx),
        #[trigger] frame_of(i, frames_x, reverse_x),
        numbers(m, gy),
        frame_of(i, frames_y, reverse_y),
        4 * h,
    ) by {
        lemma_gates_row(
            m,
            x,
            y,
            weight,
            frames_x,
            frames_y,
            input_size,
            h,
            frame_of(i, frames_x, reverse_x),
            frame_of(i, frames_y, reverse_y),
        );
    }
    let n = (k + 1) as nat;
    lemma_equal_states(m, w, plan, gx, gy, frames_x, frames_y, h, reverse_x, reverse_y, n);
    let ox = numbers(m, direction_output(w, plan, x, frames_x, input_size, h, reverse_x));
    let oy = numbers(m, direction_output(w, plan, y, frames_y, input_size, h, reverse_y));
    let (tx, ty) = (frame_of(k, frames_x, reverse_x), frame_of(k, frames_y, reverse_y));
    assert forall|c: int| 0 <= c < h implies #[trigger] ox(tx * h + c) == oy(ty * h + c) by {
        law_rows_are_the_states_after_their_frames(
            m,
            w,
            plan,
            gx,
            frames_x,
            h,
            reverse_x,
            frames_x as nat,
            k,
            c,
        );
        law_rows_are_the_states_after_their_frames(
            m,
            w,
            plan,
            gy,
            frames_y,
            h,
            reverse_y,
            frames_y as nat,
            k,
            c,
        );
    }
    lemma_rows_agree(ox, tx, oy, ty, h as int);
}

/// Later frames do not matter to the forward direction: where the frames up to
/// `t` agree, so do the rows of `t`, however many frames follow.
pub proof fn law_later_frames_do_not_matter(
    m: Machine,
    w: LstmDirection,
    plan: Plan,
    x: Term,
    y: Term,
    frames_x: int,
    frames_y: int,
    input_size: u32,
    h: u32,
    t: int,
)
    requires
        0 <= t < frames_x <= u32::MAX,
        t < frames_y <= u32::MAX,
        4 * h <= u32::MAX,
        forall|i: int|
            0 <= i <= t ==> #[trigger] same_row(numbers(m, x), i, numbers(m, y), i, input_size as int),
    ensures
        same_row(
            numbers(m, direction_output(w, plan, x, frames_x, input_size, h, false)),
            t,
            numbers(m, direction_output(w, plan, y, frames_y, input_size, h, false)),
            t,
            h as int,
        ),
{
    assert forall|i: int| 0 <= i <= t implies same_row(
        numbers(m, x),
        #[trigger] frame_of(i, frames_x, false),
        numbers(m, y),
        frame_of(i, frames_y, false),
        input_size as int,
    ) by {
        assert(same_row(numbers(m, x), i, numbers(m, y), i, input_size as int));
    }
    lemma_equal_rows(m, w, plan, x, y, frames_x, frames_y, input_size, h, false, false, t);
}

/// The reverse direction is the forward one on frames in reverse, and its rows
/// come out in reverse.
pub proof fn law_reverse_mirrors_forward(
    m: Machine,
    w: LstmDirection,
    plan: Plan,
    x: Term,
    y: Term,
    frames: int,
    input_size: u32,
    h: u32,
    t: int,
)
    requires
        0 <= t < frames <= u32::MAX,
        4 * h <= u32::MAX,
        forall|i: int|
            0 <= i < frames ==> #[trigger] same_row(
                numbers(m, x),
                i,
                numbers(m, y),
                frames - 1 - i,
                input_size as int,
            ),
    ensures
        same_row(
            numbers(m, direction_output(w, plan, x, frames, input_size, h, true)),
            t,
            numbers(m, direction_output(w, plan, y, frames, input_size, h, false)),
            frames - 1 - t,
            h as int,
        ),
{
    let k = frames - 1 - t;
    assert forall|i: int| 0 <= i <= k implies same_row(
        numbers(m, x),
        #[trigger] frame_of(i, frames, true),
        numbers(m, y),
        frame_of(i, frames, false),
        input_size as int,
    ) by {
        let r = frames - 1 - i;
        assert(same_row(numbers(m, x), r, numbers(m, y), frames - 1 - r, input_size as int));
    }
    lemma_equal_rows(m, w, plan, x, y, frames, frames, input_size, h, true, false, k);
}

/// A row of the layer: first the forward direction's, then the reverse one's.
pub proof fn law_directions_lie_side_by_side(
    m: Machine,
    w: KokoroBiLstm,
    plan: Plan,
    input: Term,
    frames: int,
    t: int,
    c: int,
)
    requires
        0 <= t < frames <= u32::MAX,
        w.hidden_size <= u32::MAX,
        0 <= c < w.hidden_size,
    ensures
        ({
            let (i, h) = (w.input_size as u32, w.hidden_size as u32);
            let out = numbers(m, lstm_output(w, plan, input, frames));
            &&& out(t * (2 * h) + c) == numbers(
                m,
                direction_output(w.forward, plan, input, frames, i, h, false),
            )(t * h + c)
            &&& out(t * (2 * h) + h + c) == numbers(
                m,
                direction_output(w.reverse, plan, input, frames, i, h, true),
            )(t * h + c)
        }),
{
    broadcast use group_numbers;

    let (i, h) = (w.input_size as u32, w.hidden_size as u32);
    let a = direction_output(w.forward, plan, input, frames, i, h, false);
    let b = direction_output(w.reverse, plan, input, frames, i, h, true);
    let out = join_rows(a, b, frames as u32, h, h);
    assert(out->args.len() == 2);
    assert(h + h == 2 * h);
    lemma_place(t, 2 * h, c);
    lemma_place(t, 2 * h, h + c);
}

} // verus!
