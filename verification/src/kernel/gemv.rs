//! Matrix-vector products on quantised weights.
use vstd::prelude::*;
use crate::gguf::types::GgmlType;
use crate::kernel::ops::{Launch, OpsKernels, flat_launch, grid_launch};

verus! {

/// The bytes of a quantised input row of `k` values: 36 bytes per 32 values.
pub open spec fn input_bytes(k: int) -> int {
    k / 32 * 36
}

/// The function for a product with weights of a type, where there is one.
pub open spec fn gemv_function(t: GgmlType) -> Option<Seq<char>> {
    match t {
        GgmlType::Q4_K => Some("gemv_q4_k"@),
        GgmlType::Q6_K => Some("gemv_q6_k"@),
        GgmlType::Q8_0 => Some("gemv_q8_0"@),
        _ => None,
    }
}

/// The matrix-vector kernels.
pub struct GemvKernels {
    /// How many bytes the input buffer has.
    pub input_bytes: usize,
}

impl GemvKernels {
    /// Kernels with room for an input row of `max_k` values.
    pub fn load(max_k: usize) -> (kernels: Self)
        requires
            input_bytes(max_k as int) <= usize::MAX,
        ensures
            kernels.input_bytes == input_bytes(max_k as int),
    {
        GemvKernels { input_bytes: max_k / 32 * 36 }
    }

    /// How an input row is quantised.
    pub fn quantize_input(k: u32) -> (launch: Launch)
        requires
            k + 255 <= u32::MAX,
        ensures
            launch == flat_launch(k as int),
    {
        OpsKernels::copy_f16(k)
    }

    /// How a product with `n` rows of weights is computed, if the type allows
    /// it: one block of 128 threads per row.
    pub fn gemv(n: u32, quant_type: GgmlType) -> (plan: Option<(&'static str, Launch)>)
        ensures
            match plan {
                Some((name, launch)) => gemv_function(quant_type) == Some(name@) && launch
                    == grid_launch(n, 1, 128, 0),
                None => gemv_function(quant_type) is None,
            },
    {
        let launch = Launch { grid: (n, 1, 1), block: (128, 1, 1), shared_bytes: 0 };
        match quant_type {
            GgmlType::Q4_K => Some(("gemv_q4_k", launch)),
            GgmlType::Q6_K => Some(("gemv_q6_k", launch)),
            GgmlType::Q8_0 => Some(("gemv_q8_0", launch)),
            _ => None,
        }
    }

    /// How two products over one input are computed, if the type allows it.
    pub fn gemv_dual(n: u32, quant_type: GgmlType) -> (plan: Option<(&'static str, Launch)>)
        ensures
            match plan {
                Some((name, launch)) => quant_type == GgmlType::Q4_K && name@ == "gemv_dual_q4_k"@
                    && launch == grid_launch(n, 1, 128, 0),
                None => quant_type != GgmlType::Q4_K,
            },
    {
        match quant_type {
            GgmlType::Q4_K => Some(
                (
                    "gemv_dual_q4_k",
                    Launch { grid: (n, 1, 1), block: (128, 1, 1), shared_bytes: 0 },
                ),
            ),
            _ => None,
        }
    }
}

} // verus!
