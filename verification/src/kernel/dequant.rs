//! Unpacking quantised weights on the device.
use vstd::prelude::*;
use vstd::string::*;
use crate::gguf::types::{GgmlType, type_label};
use crate::kernel::loader::KernelError;
use crate::kernel::ops::{Launch, OpsKernels, flat_launch};

verus! {

/// The function that unpacks a type, where there is one.
pub open spec fn dequant_function(t: GgmlType) -> Option<Seq<char>> {
    match t {
        GgmlType::Q8_0 => Some("dequant_q8_0"@),
        GgmlType::Q4_0 => Some("dequant_q4_0"@),
        GgmlType::Q5_1 => Some("dequant_q5_1"@),
        GgmlType::Q4_K => Some("dequant_q4_k"@),
        GgmlType::Q5_K => Some("dequant_q5_k"@),
        GgmlType::Q6_K => Some("dequant_q6_k"@),
        GgmlType::Q2_K => Some("dequant_q2_k"@),
        GgmlType::Q3_K => Some("dequant_q3_k"@),
        GgmlType::BF16 => Some("dequant_bf16"@),
        GgmlType::IQ2_S => Some("dequant_iq2_s"@),
        GgmlType::IQ3_XXS => Some("dequant_iq3_xxs"@),
        GgmlType::IQ3_S => Some("dequant_iq3_s"@),
        GgmlType::IQ4_XS => Some("dequant_iq4_xs"@),
        GgmlType::F16 => Some("dequant_f16"@),
        GgmlType::F32 => Some("dequant_f32"@),
        _ => None,
    }
}

/// The unpacking kernels.
pub struct DequantKernels;

impl DequantKernels {
    /// Which function unpacks a type, and how it is launched.
    pub fn prepare_dequant(n_elements: u32, quant_type: GgmlType) -> (outcome: Result<
        (&'static str, Launch),
        KernelError,
    >)
        requires
            n_elements + 255 <= u32::MAX,
        ensures
            match outcome {
                Ok((name, launch)) => dequant_function(quant_type) == Some(name@) && launch
                    == flat_launch(n_elements as int),
                Err(error) => dequant_function(quant_type) is None && error.text()
                    == "kernel launch failed: "@ + ("no GPU dequant kernel for "@ + type_label(
                    quant_type,
                )),
            },
    {
        let name: &'static str = match quant_type {
            GgmlType::Q8_0 => "dequant_q8_0",
            GgmlType::Q4_0 => "dequant_q4_0",
            GgmlType::Q5_1 => "dequant_q5_1",
            GgmlType::Q4_K => "dequant_q4_k",
            GgmlType::Q5_K => "dequant_q5_k",
            GgmlType::Q6_K => "dequant_q6_k",
            GgmlType::Q2_K => "dequant_q2_k",
            GgmlType::Q3_K => "dequant_q3_k",
            GgmlType::BF16 => "dequant_bf16",
            GgmlType::IQ2_S => "dequant_iq2_s",
            GgmlType::IQ3_XXS => "dequant_iq3_xxs",
            GgmlType::IQ3_S => "dequant_iq3_s",
            GgmlType::IQ4_XS => "dequant_iq4_xs",
            GgmlType::F16 => "dequant_f16",
            GgmlType::F32 => "dequant_f32",
            other => {
                return Err(
                    KernelError::Launch(
                        "no GPU dequant kernel for ".to_owned().concat(other.name()),
                    ),
                );
            },
        };
        Ok((name, OpsKernels::copy_f16(n_elements)))
    }
}

} // verus!
