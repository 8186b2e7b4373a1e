//! The two storage precisions of a talker and the kernels each one uses.
use vstd::prelude::*;
use crate::device::{Plan, Scalar, Term, holds};
use crate::device::kernels::Kernel;
use crate::device::meaning::{
    Machine, biased_rows, gated, group_numbers, group_origins, increased, made_from, mapped, normed_rows,
    nothing, numbers, product_rows,
};
use crate::device::value;

verus! {

/// Marks the precisions that this crate knows.
pub trait Sealed {

}

/// Half precision.
#[derive(Clone, Copy, Debug, PartialEq, Eq)]
pub struct F16;

/// Brain floating point.
#[derive(Clone, Copy, Debug, PartialEq, Eq)]
pub struct Bf16;

impl Sealed for F16 {

}

impl Sealed for Bf16 {

}

/// The kernel that normalises the stream.
pub open spec fn stream_norm(half: bool) -> Kernel {
    if half {
        Kernel::RmsNormF32in
    } else {
        Kernel::RmsNormF32inBf16
    }
}

/// The kernel of a gated activation.
pub open spec fn stream_gate(half: bool) -> Kernel {
    if half {
        Kernel::Silu
    } else {
        Kernel::SiluBf16
    }
}

/// A storage precision: which kernel does each job.
pub trait QwenDType: Sealed {
    /// Whether this is half precision, in which rotation, caches and attention
    /// work, so that nothing has to be converted for them.
    spec fn is_f16() -> bool;

    /// Whether this is half precision.
    fn stored_as_f16() -> (yes: bool)
        ensures
            yes == Self::is_f16(),
    ;

    /// A conversion overwrites what was there.
    proof fn law_conversions_overwrite(src: Term, a: Term, b: Term, n: u32)
        requires
            !Self::is_f16(),
        ensures
            Self::to_f16_value(src, a, n) == Self::to_f16_value(src, b, n),
            Self::from_f16_value(src, a, n) == Self::from_f16_value(src, b, n),
    ;

    /// Rows of the stream are normalised one by one.
    proof fn law_norms(m: Machine, x: Term, weight: Term, n_rows: u32, dim: u32, eps: Scalar)
        ensures
            numbers(m, Self::rms_norm_f32in_value(x, weight, n_rows, dim, eps)) == normed_rows(
                m,
                stream_norm(Self::is_f16()),
                numbers(m, x),
                numbers(m, weight),
                nothing(),
                dim as int,
                eps,
            ),
    ;

    /// Rows are multiplied one by one, alone or together.
    proof fn law_products(m: Machine, x: Term, weight: Term, rows: u32, n: u32, k: u32)
        ensures
            numbers(m, Self::matmul_value(x, weight, rows, n, k)) == product_rows(
                m,
                !Self::is_f16(),
                numbers(m, x),
                numbers(m, weight),
                n as int,
                k as int,
            ),
            numbers(m, Self::gemv_value(x, weight, n, k)) == product_rows(
                m,
                !Self::is_f16(),
                numbers(m, x),
                numbers(m, weight),
                n as int,
                k as int,
            ),
    ;

    /// Two products over one row are the products with each of the two.
    proof fn law_dual_products(m: Machine, x: Term, weight_a: Term, weight_b: Term, n: u32, k: u32)
        ensures
            numbers(m, Self::gemv_dual_out_a_value(x, weight_a, weight_b, n, k)) == product_rows(
                m,
                !Self::is_f16(),
                numbers(m, x),
                numbers(m, weight_a),
                n as int,
                k as int,
            ),
            numbers(m, Self::gemv_dual_out_b_value(x, weight_a, weight_b, n, k)) == product_rows(
                m,
                !Self::is_f16(),
                numbers(m, x),
                numbers(m, weight_b),
                n as int,
                k as int,
            ),
    ;

    /// A bias is added to every row.
    proof fn law_biases(m: Machine, x: Term, bias: Term, n_rows: u32, dim: u32)
        ensures
            numbers(m, Self::add_bias_value(x, bias, n_rows, dim)) == biased_rows(
                m,
                numbers(m, x),
                numbers(m, bias),
                dim as int,
            ),
    ;

    /// What is added to the stream is added in its place.
    proof fn law_residuals(m: Machine, hidden: Term, delta: Term, n: u32)
        ensures
            numbers(m, Self::add_residual_value(hidden, delta, n)) == increased(
                m,
                numbers(m, hidden),
                numbers(m, delta),
                n as int,
            ),
    ;

    /// Gates work number by number.
    proof fn law_gates(m: Machine, gate: Term, up: Term, n: u32)
        ensures
            numbers(m, Self::silu_value(gate, up, n)) == gated(
                m,
                stream_gate(Self::is_f16()),
                numbers(m, gate),
                numbers(m, up),
            ),
    ;

    /// Conversions work number by number.
    proof fn law_conversions(m: Machine, x: Term, n: u32)
        requires
            !Self::is_f16(),
        ensures
            numbers(m, Self::to_f16_value(x, x, n)) == mapped(
                m,
                Kernel::CopyBf16ToF16,
                numbers(m, x),
                Seq::empty(),
            ),
            numbers(m, Self::from_f16_value(x, x, n)) == mapped(
                m,
                Kernel::CopyF16ToBf16,
                numbers(m, x),
                Seq::empty(),
            ),
    ;

    /// What streams, gates and products are made from.
    proof fn law_sources(x: Term, y: Term, z: Term, rows: u32, n: u32, k: u32, eps: Scalar)
        ensures
            made_from(Self::rms_norm_f32in_value(x, y, rows, n, eps), x),
            made_from(Self::rms_norm_f32in_value(x, y, rows, n, eps), y),
            made_from(Self::matmul_value(x, y, rows, n, k), x),
            made_from(Self::matmul_value(x, y, rows, n, k), y),
            made_from(Self::gemv_value(x, y, n, k), x),
            made_from(Self::gemv_value(x, y, n, k), y),
            made_from(Self::gemv_dual_out_a_value(x, y, z, n, k), x),
            made_from(Self::gemv_dual_out_a_value(x, y, z, n, k), y),
            made_from(Self::gemv_dual_out_b_value(x, y, z, n, k), x),
            made_from(Self::gemv_dual_out_b_value(x, y, z, n, k), z),
            made_from(Self::add_residual_value(x, y, n), x),
            made_from(Self::add_residual_value(x, y, n), y),
            made_from(Self::silu_value(x, y, n), x),
            made_from(Self::silu_value(x, y, n), y),
            made_from(Self::add_bias_value(x, y, rows, n), x),
            made_from(Self::add_bias_value(x, y, rows, n), y),
            !Self::is_f16() ==> made_from(Self::to_f16_value(x, x, n), x),
            !Self::is_f16() ==> made_from(Self::from_f16_value(x, x, n), x),
    ;

    /// What [`Self::rms_norm_f32in`] leaves in `out`.
    spec fn rms_norm_f32in_value(x: Term, weight: Term, n_rows: u32, dim: u32, eps: Scalar) -> Term;

    /// What [`Self::matmul`] leaves in `out`.
    spec fn matmul_value(a: Term, b: Term, m: u32, n: u32, k: u32) -> Term;

    /// What [`Self::gemv`] leaves in `out`.
    spec fn gemv_value(x: Term, weight: Term, n: u32, k: u32) -> Term;

    /// What [`Self::gemv_dual`] leaves in `out_a`.
    spec fn gemv_dual_out_a_value(x: Term, weight_a: Term, weight_b: Term, n: u32, k: u32) -> Term;

    /// What [`Self::gemv_dual`] leaves in `out_b`.
    spec fn gemv_dual_out_b_value(x: Term, weight_a: Term, weight_b: Term, n: u32, k: u32) -> Term;

    /// What [`Self::add_residual`] leaves in `hidden`.
    spec fn add_residual_value(hidden: Term, delta: Term, n: u32) -> Term;

    /// What [`Self::silu`] leaves in `out`.
    spec fn silu_value(gate: Term, up: Term, n: u32) -> Term;

    /// What [`Self::silu_act`] leaves in `out`.
    spec fn silu_act_value(x: Term, n: u32) -> Term;

    /// What [`Self::gather`] leaves in `out`.
    spec fn gather_value(table: Term, ids: Term, n_rows: u32, dim: u32) -> Term;

    /// What [`Self::add_bias`] leaves in `x`.
    spec fn add_bias_value(x: Term, bias: Term, n_rows: u32, dim: u32) -> Term;

    /// What [`Self::to_f32_device`] leaves in `dst`.
    spec fn to_f32_device_value(src: Term, n: u32) -> Term;

    /// Row-wise RMS normalisation from f32.
    fn rms_norm_f32in(plan: &mut Plan, x: usize, weight: usize, out: usize, n_rows: u32, dim: u32, eps: Scalar)
        requires
            old(plan).wf(),
            holds(*old(plan), x, n_rows * dim),
            holds(*old(plan), weight, dim as int),
            holds(*old(plan), out, n_rows * dim),
        ensures
            final(plan).wf(),
            final(plan).sizes() == old(plan).sizes(),
            final(plan).values() == old(plan).values().update(
                out as int,
                Self::rms_norm_f32in_value(old(plan).values()[x as int], old(plan).values()[weight as int], n_rows, dim, eps),
            ),
    ;

    /// A matrix product with transposed weights.
    fn matmul(plan: &mut Plan, a: usize, b: usize, out: usize, m: u32, n: u32, k: u32)
        requires
            old(plan).wf(),
            holds(*old(plan), a, m * k),
            holds(*old(plan), b, n * k),
            holds(*old(plan), out, m * n),
        ensures
            final(plan).wf(),
            final(plan).sizes() == old(plan).sizes(),
            final(plan).values() == old(plan).values().update(
                out as int,
                Self::matmul_value(old(plan).values()[a as int], old(plan).values()[b as int], m, n, k),
            ),
    ;

    /// A matrix-vector product.
    fn gemv(plan: &mut Plan, x: usize, weight: usize, out: usize, n: u32, k: u32)
        requires
            old(plan).wf(),
            holds(*old(plan), x, k as int),
            holds(*old(plan), weight, n * k),
            holds(*old(plan), out, n as int),
        ensures
            final(plan).wf(),
            final(plan).sizes() == old(plan).sizes(),
            final(plan).values() == old(plan).values().update(
                out as int,
                Self::gemv_value(old(plan).values()[x as int], old(plan).values()[weight as int], n, k),
            ),
    ;

    /// Two matrix-vector products over one input.
    fn gemv_dual(plan: &mut Plan, x: usize, weight_a: usize, weight_b: usize, out_a: usize, out_b: usize, n: u32, k: u32)
        requires
            old(plan).wf(),
            holds(*old(plan), x, k as int),
            holds(*old(plan), weight_a, n * k),
            holds(*old(plan), weight_b, n * k),
            holds(*old(plan), out_a, n as int),
            holds(*old(plan), out_b, n as int),
            out_a != out_b,
        ensures
            final(plan).wf(),
            final(plan).sizes() == old(plan).sizes(),
            final(plan).values() == old(plan).values().update(
                out_a as int,
                Self::gemv_dual_out_a_value(old(plan).values()[x as int], old(plan).values()[weight_a as int], old(plan).values()[weight_b as int], n, k),
            ).update(
                out_b as int,
                Self::gemv_dual_out_b_value(old(plan).values()[x as int], old(plan).values()[weight_a as int], old(plan).values()[weight_b as int], n, k),
            ),
    ;

    /// Adds to the residual stream.
    fn add_residual(plan: &mut Plan, hidden: usize, delta: usize, n: u32)
        requires
            old(plan).wf(),
            holds(*old(plan), hidden, n as int),
            holds(*old(plan), delta, n as int),
        ensures
            final(plan).wf(),
            final(plan).sizes() == old(plan).sizes(),
            final(plan).values() == old(plan).values().update(
                hidden as int,
                Self::add_residual_value(old(plan).values()[hidden as int], old(plan).values()[delta as int], n),
            ),
    ;

    /// A gated SiLU.
    fn silu(plan: &mut Plan, gate: usize, up: usize, out: usize, n: u32)
        requires
            old(plan).wf(),
            holds(*old(plan), gate, n as int),
            holds(*old(plan), up, n as int),
            holds(*old(plan), out, n as int),
        ensures
            final(plan).wf(),
            final(plan).sizes() == old(plan).sizes(),
            final(plan).values() == old(plan).values().update(
                out as int,
                Self::silu_value(old(plan).values()[gate as int], old(plan).values()[up as int], n),
            ),
    ;

    /// A SiLU.
    fn silu_act(plan: &mut Plan, x: usize, out: usize, n: u32)
        requires
            old(plan).wf(),
            holds(*old(plan), x, n as int),
            holds(*old(plan), out, n as int),
        ensures
            final(plan).wf(),
            final(plan).sizes() == old(plan).sizes(),
            final(plan).values() == old(plan).values().update(
                out as int,
                Self::silu_act_value(old(plan).values()[x as int], n),
            ),
    ;

    /// Looks up table rows.
    fn gather(plan: &mut Plan, table: usize, ids: usize, out: usize, n_rows: u32, dim: u32)
        requires
            old(plan).wf(),
            holds(*old(plan), table, 0),
            holds(*old(plan), ids, n_rows as int),
            holds(*old(plan), out, n_rows * dim),
        ensures
            final(plan).wf(),
            final(plan).sizes() == old(plan).sizes(),
            final(plan).values() == old(plan).values().update(
                out as int,
                Self::gather_value(old(plan).values()[table as int], old(plan).values()[ids as int], n_rows, dim),
            ),
    ;

    /// Adds a bias row to every row.
    fn add_bias(plan: &mut Plan, x: usize, bias: usize, n_rows: u32, dim: u32)
        requires
            old(plan).wf(),
            holds(*old(plan), x, n_rows * dim),
            holds(*old(plan), bias, dim as int),
        ensures
            final(plan).wf(),
            final(plan).sizes() == old(plan).sizes(),
            final(plan).values() == old(plan).values().update(
                x as int,
                Self::add_bias_value(old(plan).values()[x as int], old(plan).values()[bias as int], n_rows, dim),
            ),
    ;

    /// Widens to f32.
    fn to_f32_device(plan: &mut Plan, src: usize, dst: usize, n: u32)
        requires
            old(plan).wf(),
            holds(*old(plan), src, n as int),
            holds(*old(plan), dst, n as int),
        ensures
            final(plan).wf(),
            final(plan).sizes() == old(plan).sizes(),
            final(plan).values() == old(plan).values().update(
                dst as int,
                Self::to_f32_device_value(old(plan).values()[src as int], n),
            ),
    ;

    /// What [`Self::to_f16`] leaves in `dst`.
    spec fn to_f16_value(src: Term, dst: Term, n: u32) -> Term;

    /// What [`Self::from_f16`] leaves in `dst`.
    spec fn from_f16_value(src: Term, dst: Term, n: u32) -> Term;

    /// Converts to half precision.
    fn to_f16(plan: &mut Plan, src: usize, dst: usize, n: u32)
        requires
            old(plan).wf(),
            holds(*old(plan), src, n as int),
            holds(*old(plan), dst, n as int),
        ensures
            final(plan).wf(),
            final(plan).sizes() == old(plan).sizes(),
            final(plan).values() == old(plan).values().update(
                dst as int,
                Self::to_f16_value(
                    old(plan).values()[src as int],
                    old(plan).values()[dst as int],
                    n,
                ),
            ),
    ;

    /// Converts from half precision.
    fn from_f16(plan: &mut Plan, src: usize, dst: usize, n: u32)
        requires
            old(plan).wf(),
            holds(*old(plan), src, n as int),
            holds(*old(plan), dst, n as int),
        ensures
            final(plan).wf(),
            final(plan).sizes() == old(plan).sizes(),
            final(plan).values() == old(plan).values().update(
                dst as int,
                Self::from_f16_value(
                    old(plan).values()[src as int],
                    old(plan).values()[dst as int],
                    n,
                ),
            ),
    ;
}

impl QwenDType for F16 {
    open spec fn is_f16() -> bool {
        true
    }

    fn stored_as_f16() -> (yes: bool) {
        true
    }

    proof fn law_conversions_overwrite(src: Term, a: Term, b: Term, n: u32) {
    }

    proof fn law_norms(m: Machine, x: Term, weight: Term, n_rows: u32, dim: u32, eps: Scalar) {
        broadcast use group_numbers;

        let t = value::rms_norm_f32in(x, weight, n_rows, dim, eps);
        assert(t->args.len() == 2);
        assert(Self::rms_norm_f32in_value(x, weight, n_rows, dim, eps) == t);
    }

    proof fn law_products(m: Machine, x: Term, weight: Term, rows: u32, n: u32, k: u32) {
        broadcast use group_numbers;

        let t = value::matmul_f16(x, weight, rows, n, k);
        assert(t->args.len() == 2);
        assert(Self::matmul_value(x, weight, rows, n, k) == t);
        let t = value::gemv_f16(x, weight, n, k);
        assert(t->args.len() == 2);
        assert(Self::gemv_value(x, weight, n, k) == t);
    }

    proof fn law_dual_products(m: Machine, x: Term, weight_a: Term, weight_b: Term, n: u32, k: u32) {
        broadcast use group_numbers;

        let t = value::gemv_dual_f16_out_a(x, weight_a, weight_b, n, k);
        assert(t->args.len() == 3);
        assert(Self::gemv_dual_out_a_value(x, weight_a, weight_b, n, k) == t);
        let t = value::gemv_dual_f16_out_b(x, weight_a, weight_b, n, k);
        assert(t->args.len() == 3);
        assert(Self::gemv_dual_out_b_value(x, weight_a, weight_b, n, k) == t);
    }

    proof fn law_biases(m: Machine, x: Term, bias: Term, n_rows: u32, dim: u32) {
        broadcast use group_numbers;

        let t = value::add_bias_f16_inplace(x, bias, n_rows, dim);
        assert(t->args.len() == 2);
        assert(Self::add_bias_value(x, bias, n_rows, dim) == t);
    }

    proof fn law_residuals(m: Machine, hidden: Term, delta: Term, n: u32) {
        broadcast use group_numbers;

        let t = value::add_inplace_f32_f16(hidden, delta, n);
        assert(t->args.len() == 2);
        assert(Self::add_residual_value(hidden, delta, n) == t);
    }

    proof fn law_gates(m: Machine, gate: Term, up: Term, n: u32) {
        broadcast use group_numbers;

        let t = value::silu(gate, up, n);
        assert(t->args.len() == 2);
        assert(Self::silu_value(gate, up, n) == t);
    }

    proof fn law_conversions(m: Machine, x: Term, n: u32) {
    }

    proof fn law_sources(x: Term, y: Term, z: Term, rows: u32, n: u32, k: u32, eps: Scalar) {
        broadcast use group_origins;

        assert(Self::rms_norm_f32in_value(x, y, rows, n, eps) == value::rms_norm_f32in(x, y, rows, n, eps));
        assert(Self::matmul_value(x, y, rows, n, k) == value::matmul_f16(x, y, rows, n, k));
        assert(Self::gemv_value(x, y, n, k) == value::gemv_f16(x, y, n, k));
        assert(Self::gemv_dual_out_a_value(x, y, z, n, k) == value::gemv_dual_f16_out_a(x, y, z, n, k));
        assert(Self::gemv_dual_out_b_value(x, y, z, n, k) == value::gemv_dual_f16_out_b(x, y, z, n, k));
        assert(Self::add_residual_value(x, y, n) == value::add_inplace_f32_f16(x, y, n));
        assert(Self::silu_value(x, y, n) == value::silu(x, y, n));
        assert(Self::add_bias_value(x, y, rows, n) == value::add_bias_f16_inplace(x, y, rows, n));
    }

    open spec fn to_f16_value(src: Term, dst: Term, n: u32) -> Term {
        value::copy_f16_at(src, dst, n, 0)
    }

    open spec fn from_f16_value(src: Term, dst: Term, n: u32) -> Term {
        value::copy_f16_at(src, dst, n, 0)
    }

    fn to_f16(plan: &mut Plan, src: usize, dst: usize, n: u32) {
        plan.copy_f16_at(src, dst, n, 0);
    }

    fn from_f16(plan: &mut Plan, src: usize, dst: usize, n: u32) {
        plan.copy_f16_at(src, dst, n, 0);
    }

    open spec fn rms_norm_f32in_value(x: Term, weight: Term, n_rows: u32, dim: u32, eps: Scalar) -> Term {
        value::rms_norm_f32in(x, weight, n_rows, dim, eps)
    }

    open spec fn matmul_value(a: Term, b: Term, m: u32, n: u32, k: u32) -> Term {
        value::matmul_f16(a, b, m, n, k)
    }

    open spec fn gemv_value(x: Term, weight: Term, n: u32, k: u32) -> Term {
        value::gemv_f16(x, weight, n, k)
    }

    open spec fn gemv_dual_out_a_value(x: Term, weight_a: Term, weight_b: Term, n: u32, k: u32) -> Term {
        value::gemv_dual_f16_out_a(x, weight_a, weight_b, n, k)
    }

    open spec fn gemv_dual_out_b_value(x: Term, weight_a: Term, weight_b: Term, n: u32, k: u32) -> Term {
        value::gemv_dual_f16_out_b(x, weight_a, weight_b, n, k)
    }

    open spec fn add_residual_value(hidden: Term, delta: Term, n: u32) -> Term {
        value::add_inplace_f32_f16(hidden, delta, n)
    }

    open spec fn silu_value(gate: Term, up: Term, n: u32) -> Term {
        value::silu(gate, up, n)
    }

    open spec fn silu_act_value(x: Term, n: u32) -> Term {
        value::silu_act_f16(x, n)
    }

    open spec fn gather_value(table: Term, ids: Term, n_rows: u32, dim: u32) -> Term {
        value::gather_rows_f16(table, ids, n_rows, dim)
    }

    open spec fn add_bias_value(x: Term, bias: Term, n_rows: u32, dim: u32) -> Term {
        value::add_bias_f16_inplace(x, bias, n_rows, dim)
    }

    open spec fn to_f32_device_value(src: Term, n: u32) -> Term {
        value::copy_f16_to_f32(src, n)
    }

    fn rms_norm_f32in(plan: &mut Plan, x: usize, weight: usize, out: usize, n_rows: u32, dim: u32, eps: Scalar) {
        plan.rms_norm_f32in(x, weight, out, n_rows, dim, eps);
    }

    fn matmul(plan: &mut Plan, a: usize, b: usize, out: usize, m: u32, n: u32, k: u32) {
        plan.matmul_f16(a, b, out, m, n, k);
    }

    fn gemv(plan: &mut Plan, x: usize, weight: usize, out: usize, n: u32, k: u32) {
        plan.gemv_f16(x, weight, out, n, k);
    }

    fn gemv_dual(plan: &mut Plan, x: usize, weight_a: usize, weight_b: usize, out_a: usize, out_b: usize, n: u32, k: u32) {
        plan.gemv_dual_f16(x, weight_a, weight_b, out_a, out_b, n, k);
    }

    fn add_residual(plan: &mut Plan, hidden: usize, delta: usize, n: u32) {
        plan.add_inplace_f32_f16(hidden, delta, n);
    }

    fn silu(plan: &mut Plan, gate: usize, up: usize, out: usize, n: u32) {
        plan.silu(gate, up, out, n);
    }

    fn silu_act(plan: &mut Plan, x: usize, out: usize, n: u32) {
        plan.silu_act_f16(x, out, n);
    }

    fn gather(plan: &mut Plan, table: usize, ids: usize, out: usize, n_rows: u32, dim: u32) {
        plan.gather_rows_f16(table, ids, out, n_rows, dim);
    }

    fn add_bias(plan: &mut Plan, x: usize, bias: usize, n_rows: u32, dim: u32) {
        plan.add_bias_f16_inplace(x, bias, n_rows, dim);
    }

    fn to_f32_device(plan: &mut Plan, src: usize, dst: usize, n: u32) {
        plan.copy_f16_to_f32(src, dst, n);
    }

}

impl QwenDType for Bf16 {
    open spec fn is_f16() -> bool {
        false
    }

    fn stored_as_f16() -> (yes: bool) {
        false
    }

    proof fn law_conversions_overwrite(src: Term, a: Term, b: Term, n: u32) {
    }

    proof fn law_norms(m: Machine, x: Term, weight: Term, n_rows: u32, dim: u32, eps: Scalar) {
        broadcast use group_numbers;

        let t = value::rms_norm_f32in_bf16(x, weight, n_rows, dim, eps);
        assert(t->args.len() == 2);
        assert(Self::rms_norm_f32in_value(x, weight, n_rows, dim, eps) == t);
    }

    proof fn law_products(m: Machine, x: Term, weight: Term, rows: u32, n: u32, k: u32) {
        broadcast use group_numbers;

        let t = value::matmul_bf16(x, weight, rows, n, k);
        assert(t->args.len() == 2);
        assert(Self::matmul_value(x, weight, rows, n, k) == t);
        let t = value::gemv_bf16(x, weight, n, k);
        assert(t->args.len() == 2);
        assert(Self::gemv_value(x, weight, n, k) == t);
    }

    proof fn law_dual_products(m: Machine, x: Term, weight_a: Term, weight_b: Term, n: u32, k: u32) {
        broadcast use group_numbers;

        let t = value::gemv_dual_bf16_out_a(x, weight_a, weight_b, n, k);
        assert(t->args.len() == 3);
        assert(Self::gemv_dual_out_a_value(x, weight_a, weight_b, n, k) == t);
        let t = value::gemv_dual_bf16_out_b(x, weight_a, weight_b, n, k);
        assert(t->args.len() == 3);
        assert(Self::gemv_dual_out_b_value(x, weight_a, weight_b, n, k) == t);
    }

    proof fn law_biases(m: Machine, x: Term, bias: Term, n_rows: u32, dim: u32) {
        broadcast use group_numbers;

        let t = value::add_bias_bf16_inplace(x, bias, n_rows, dim);
        assert(t->args.len() == 2);
        assert(Self::add_bias_value(x, bias, n_rows, dim) == t);
    }

    proof fn law_residuals(m: Machine, hidden: Term, delta: Term, n: u32) {
        broadcast use group_numbers;

        let t = value::add_inplace_f32_bf16(hidden, delta, n);
        assert(t->args.len() == 2);
        assert(Self::add_residual_value(hidden, delta, n) == t);
    }

    proof fn law_gates(m: Machine, gate: Term, up: Term, n: u32) {
        broadcast use group_numbers;

        let t = value::silu_bf16(gate, up, n);
        assert(t->args.len() == 2);
        assert(Self::silu_value(gate, up, n) == t);
    }

    proof fn law_conversions(m: Machine, x: Term, n: u32) {
        broadcast use group_numbers;

        assert(seq![Scalar::Count(n)].skip(1) =~= Seq::empty());
    }

    proof fn law_sources(x: Term, y: Term, z: Term, rows: u32, n: u32, k: u32, eps: Scalar) {
        broadcast use group_origins;

        assert(Self::rms_norm_f32in_value(x, y, rows, n, eps) == value::rms_norm_f32in_bf16(x, y, rows, n, eps));
        assert(Self::matmul_value(x, y, rows, n, k) == value::matmul_bf16(x, y, rows, n, k));
        assert(Self::gemv_value(x, y, n, k) == value::gemv_bf16(x, y, n, k));
        assert(Self::gemv_dual_out_a_value(x, y, z, n, k) == value::gemv_dual_bf16_out_a(x, y, z, n, k));
        assert(Self::gemv_dual_out_b_value(x, y, z, n, k) == value::gemv_dual_bf16_out_b(x, y, z, n, k));
        assert(Self::add_residual_value(x, y, n) == value::add_inplace_f32_bf16(x, y, n));
        assert(Self::silu_value(x, y, n) == value::silu_bf16(x, y, n));
        assert(Self::add_bias_value(x, y, rows, n) == value::add_bias_bf16_inplace(x, y, rows, n));
        assert(Self::to_f16_value(x, x, n) == value::copy_bf16_to_f16(x, n));
        assert(Self::from_f16_value(x, x, n) == value::copy_f16_to_bf16(x, n));
    }

    open spec fn to_f16_value(src: Term, dst: Term, n: u32) -> Term {
        value::copy_bf16_to_f16(src, n)
    }

    open spec fn from_f16_value(src: Term, dst: Term, n: u32) -> Term {
        value::copy_f16_to_bf16(src, n)
    }

    fn to_f16(plan: &mut Plan, src: usize, dst: usize, n: u32) {
        plan.copy_bf16_to_f16(src, dst, n);
    }

    fn from_f16(plan: &mut Plan, src: usize, dst: usize, n: u32) {
        plan.copy_f16_to_bf16(src, dst, n);
    }

    open spec fn rms_norm_f32in_value(x: Term, weight: Term, n_rows: u32, dim: u32, eps: Scalar) -> Term {
        value::rms_norm_f32in_bf16(x, weight, n_rows, dim, eps)
    }

    open spec fn matmul_value(a: Term, b: Term, m: u32, n: u32, k: u32) -> Term {
        value::matmul_bf16(a, b, m, n, k)
    }

    open spec fn gemv_value(x: Term, weight: Term, n: u32, k: u32) -> Term {
        value::gemv_bf16(x, weight, n, k)
    }

    open spec fn gemv_dual_out_a_value(x: Term, weight_a: Term, weight_b: Term, n: u32, k: u32) -> Term {
        value::gemv_dual_bf16_out_a(x, weight_a, weight_b, n, k)
    }

    open spec fn gemv_dual_out_b_value(x: Term, weight_a: Term, weight_b: Term, n: u32, k: u32) -> Term {
        value::gemv_dual_bf16_out_b(x, weight_a, weight_b, n, k)
    }

    open spec fn add_residual_value(hidden: Term, delta: Term, n: u32) -> Term {
        value::add_inplace_f32_bf16(hidden, delta, n)
    }

    open spec fn silu_value(gate: Term, up: Term, n: u32) -> Term {
        value::silu_bf16(gate, up, n)
    }

    open spec fn silu_act_value(x: Term, n: u32) -> Term {
        value::silu_act_bf16(x, n)
    }

    open spec fn gather_value(table: Term, ids: Term, n_rows: u32, dim: u32) -> Term {
        value::gather_rows_bf16(table, ids, n_rows, dim)
    }

    open spec fn add_bias_value(x: Term, bias: Term, n_rows: u32, dim: u32) -> Term {
        value::add_bias_bf16_inplace(x, bias, n_rows, dim)
    }

    open spec fn to_f32_device_value(src: Term, n: u32) -> Term {
        value::copy_bf16_to_f32(src, n)
    }

    fn rms_norm_f32in(plan: &mut Plan, x: usize, weight: usize, out: usize, n_rows: u32, dim: u32, eps: Scalar) {
        plan.rms_norm_f32in_bf16(x, weight, out, n_rows, dim, eps);
    }

    fn matmul(plan: &mut Plan, a: usize, b: usize, out: usize, m: u32, n: u32, k: u32) {
        plan.matmul_bf16(a, b, out, m, n, k);
    }

    fn gemv(plan: &mut Plan, x: usize, weight: usize, out: usize, n: u32, k: u32) {
        plan.gemv_bf16(x, weight, out, n, k);
    }

    fn gemv_dual(plan: &mut Plan, x: usize, weight_a: usize, weight_b: usize, out_a: usize, out_b: usize, n: u32, k: u32) {
        plan.gemv_dual_bf16(x, weight_a, weight_b, out_a, out_b, n, k);
    }

    fn add_residual(plan: &mut Plan, hidden: usize, delta: usize, n: u32) {
        plan.add_inplace_f32_bf16(hidden, delta, n);
    }

    fn silu(plan: &mut Plan, gate: usize, up: usize, out: usize, n: u32) {
        plan.silu_bf16(gate, up, out, n);
    }

    fn silu_act(plan: &mut Plan, x: usize, out: usize, n: u32) {
        plan.silu_act_bf16(x, out, n);
    }

    fn gather(plan: &mut Plan, table: usize, ids: usize, out: usize, n_rows: u32, dim: u32) {
        plan.gather_rows_bf16(table, ids, out, n_rows, dim);
    }

    fn add_bias(plan: &mut Plan, x: usize, bias: usize, n_rows: u32, dim: u32) {
        plan.add_bias_bf16_inplace(x, bias, n_rows, dim);
    }

    fn to_f32_device(plan: &mut Plan, src: usize, dst: usize, n: u32) {
        plan.copy_bf16_to_f32(src, dst, n);
    }

}

} // verus!
