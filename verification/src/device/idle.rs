//! Branches that come to nothing, and what is left of a sum with them.
use vstd::prelude::*;
use crate::device::{Scalar, Term};
use crate::device::compound::linear;
use crate::device::kernels::Kernel;
use crate::device::meaning::{
    Machine, absorbing, alike, blank, group_numbers, neutral, numbers, piece, silent, still, zero_row,
};
use crate::device::value::{
    add_bias_f16_inplace, add_f16, add_inplace_f32_f16, elu_f16, gelu_erf_f16, gemv_f16, matmul_f16,
    mul_f16_broadcast, relu, relu_bf16, sigmoid, silu_act_bf16, silu_act_f16, transpose_f16,
};

verus! {

/// Products with silent weights are blank.
pub proof fn lemma_blank_product(m: Machine, x: Term, weight: Term, rows: u32, n: u32, k: u32)
    requires
        silent(m, false, weight),
    ensures
        blank(m, matmul_f16(x, weight, rows, n, k)),
        blank(m, gemv_f16(x, weight, n, k)),
{
    broadcast use group_numbers;

    assert(matmul_f16(x, weight, rows, n, k)->args.len() == 2);
    assert(gemv_f16(x, weight, n, k)->args.len() == 2);
}

/// So are linear maps with silent weights and blank biases.
pub proof fn lemma_blank_map(
    m: Machine,
    x: Term,
    weight: Term,
    bias: Term,
    rows: u32,
    n: u32,
    k: u32,
)
    requires
        neutral(m),
        silent(m, false, weight),
        blank(m, bias),
    ensures
        blank(m, linear(x, weight, bias, rows, n, k)),
        blank(m, add_bias_f16_inplace(matmul_f16(x, weight, rows, n, k), bias, rows, n)),
{
    broadcast use group_numbers;

    let p = matmul_f16(x, weight, rows, n, k);
    lemma_blank_product(m, x, weight, rows, n, k);
    let t = add_bias_f16_inplace(p, bias, rows, n);
    assert(t->args.len() == 2);
    assert forall|j: int| #[trigger] numbers(m, t)(j) == 0 by {
        assert(numbers(m, t)(j) == (m.add)(numbers(m, p)(j), numbers(m, bias)(j % (n as int))));
    }
}

/// Blank numbers stay blank when they are scaled or turned.
pub proof fn lemma_blank_scaled(m: Machine, x: Term, scale: Term, n: u32, width: u32)
    requires
        absorbing(m),
        blank(m, x),
    ensures
        blank(m, mul_f16_broadcast(x, scale, n, width)),
{
    broadcast use group_numbers;

    let t = mul_f16_broadcast(x, scale, n, width);
    assert(t->args.len() == 2);
    assert forall|j: int| #[trigger] numbers(m, t)(j) == 0 by {
        assert(numbers(m, t)(j) == (m.times)(
            numbers(m, x)(j),
            numbers(m, scale)(j % (width as int)),
        ));
    }
}

/// Blank numbers stay blank when they are turned.
pub proof fn lemma_blank_turned(m: Machine, x: Term, rows: u32, cols: u32)
    requires
        blank(m, x),
    ensures
        blank(m, transpose_f16(x, rows, cols)),
{
    broadcast use group_numbers;

    let t = transpose_f16(x, rows, cols);
    assert(t->args.len() == 1);
    assert forall|j: int| #[trigger] numbers(m, t)(j) == 0 by {
        assert(numbers(m, t)(j) == numbers(m, x)(j % (rows as int) * cols + j / (rows as int)));
    }
}

/// A sum with a blank is the other summand.
pub proof fn lemma_blank_added(m: Machine, x: Term, d: Term, n: u32)
    requires
        neutral(m),
        blank(m, d),
    ensures
        alike(m, add_inplace_f32_f16(x, d, n), x),
        alike(m, add_f16(x, d, n), x),
        alike(m, add_f16(d, x, n), x),
{
    broadcast use group_numbers;

    let a = add_inplace_f32_f16(x, d, n);
    let b = add_f16(x, d, n);
    let c = add_f16(d, x, n);
    assert(a->args.len() == 2 && b->args.len() == 2 && c->args.len() == 2);
    assert forall|j: int| #[trigger] numbers(m, a)(j) == numbers(m, x)(j) by {
        if 0 <= j < n {
            assert(numbers(m, a)(j) == (m.add)(numbers(m, x)(j), numbers(m, d)(j)));
        }
    }
    assert forall|j: int| #[trigger] numbers(m, b)(j) == numbers(m, x)(j) by {
        assert(numbers(m, b)(j) == (m.add)(numbers(m, x)(j), numbers(m, d)(j)));
    }
    assert forall|j: int| #[trigger] numbers(m, c)(j) == numbers(m, x)(j) by {
        assert(numbers(m, c)(j) == (m.add)(numbers(m, d)(j), numbers(m, x)(j)));
    }
}

/// An activation gives nothing, whatever it is given.
pub open spec fn quiet(m: Machine, kernel: Kernel) -> bool {
    forall|a: int, s: Seq<Scalar>| #[trigger] (m.each)(kernel, a, s) == 0
}

/// What quiet activations leave is blank.
pub proof fn lemma_quiet(m: Machine, x: Term, n: u32)
    ensures
        quiet(m, Kernel::GeluErfF16) ==> blank(m, gelu_erf_f16(x, n)),
        quiet(m, Kernel::SiluActF16) ==> blank(m, silu_act_f16(x, n)),
        quiet(m, Kernel::SiluActBf16) ==> blank(m, silu_act_bf16(x, n)),
        quiet(m, Kernel::Sigmoid) ==> blank(m, sigmoid(x, n)),
        quiet(m, Kernel::Relu) ==> blank(m, relu(x, n)),
        quiet(m, Kernel::ReluBf16) ==> blank(m, relu_bf16(x, n)),
        quiet(m, Kernel::EluF16) ==> blank(m, elu_f16(x, n)),
{
    broadcast use group_numbers;

    assert(gelu_erf_f16(x, n)->args.len() == 1);
    assert(silu_act_f16(x, n)->args.len() == 1);
    assert(silu_act_bf16(x, n)->args.len() == 1);
    assert(sigmoid(x, n)->args.len() == 1);
    assert(relu(x, n)->args.len() == 1);
    assert(relu_bf16(x, n)->args.len() == 1);
    assert(elu_f16(x, n)->args.len() == 1);
}

/// Linear maps of blanks are blank, where their biases are.
pub proof fn lemma_blank_through(
    m: Machine,
    x: Term,
    weight: Term,
    bias: Term,
    rows: u32,
    n: u32,
    k: u32,
)
    requires
        neutral(m),
        still(m),
        blank(m, x),
    ensures
        blank(m, matmul_f16(x, weight, rows, n, k)),
        blank(m, bias) ==> blank(m, linear(x, weight, bias, rows, n, k)),
{
    broadcast use group_numbers;

    let p = matmul_f16(x, weight, rows, n, k);
    assert(p->args.len() == 2);
    assert forall|j: int| #[trigger] numbers(m, p)(j) == 0 by {
        let row = piece(numbers(m, x), j / (n as int) * k, k as int);
        assert(zero_row(row));
    }
    let t = linear(x, weight, bias, rows, n, k);
    assert(t->args.len() == 2);
    if blank(m, bias) {
        assert forall|j: int| #[trigger] numbers(m, t)(j) == 0 by {
            assert(numbers(m, t)(j) == (m.add)(numbers(m, p)(j), numbers(m, bias)(j % (n as int))));
        }
    }
}

} // verus!
