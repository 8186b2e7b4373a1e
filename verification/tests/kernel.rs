use chew_tts::gguf::types::GgmlType;
use chew_tts::kernel::dequant::DequantKernels;
use chew_tts::kernel::gemm::{Chunk, DequantPlan, Gemm, GemmShape, MAX_SCRATCH_ELEMENTS};
use chew_tts::kernel::gemv::GemvKernels;
use chew_tts::kernel::loader::{
    downgrade_ptx_version_if_needed, first_header_places, last_place, target_architecture,
    versioned_header_places, KernelError,
};
use chew_tts::kernel::ops::{Launch, OpsKernels, SpeakerKernels};

fn launch(grid: (u32, u32, u32), block: (u32, u32, u32), shared_bytes: u32) -> Launch {
    Launch { grid, block, shared_bytes }
}

#[test]
fn every_element_has_a_thread() {
    assert_eq!(OpsKernels::silu(0), launch((0, 1, 1), (256, 1, 1), 0));
    assert_eq!(OpsKernels::silu(1), launch((1, 1, 1), (256, 1, 1), 0));
    assert_eq!(OpsKernels::silu(256), launch((1, 1, 1), (256, 1, 1), 0));
    assert_eq!(OpsKernels::silu(257), launch((2, 1, 1), (256, 1, 1), 0));
    assert_eq!(OpsKernels::transpose_f16(30, 20).grid, (3, 1, 1));
    assert_eq!(SpeakerKernels::unfold_reflect(4, 100, 3).grid, (5, 1, 1));
    assert_eq!(SpeakerKernels::relu(u32::MAX).grid, (16_777_216, 1, 1));
}

#[test]
fn rows_have_a_block_each() {
    assert_eq!(OpsKernels::rms_norm(7, 2048), launch((7, 1, 1), (256, 1, 1), 1024));
    assert_eq!(OpsKernels::rms_norm(7, 64), launch((7, 1, 1), (64, 1, 1), 256));
    assert_eq!(OpsKernels::layer_norm_f32in(1, 300), launch((1, 1, 1), (256, 1, 1), 2048));
    assert_eq!(OpsKernels::embed_tokens_f32(3, 100), launch((3, 1, 1), (100, 1, 1), 0));
    assert_eq!(OpsKernels::add_bias_f16(3, 257), launch((3, 2, 1), (256, 1, 1), 0));
    assert_eq!(OpsKernels::gather_rows_quant(512, 9), launch((9, 2, 1), (256, 1, 1), 0));
    assert_eq!(OpsKernels::gather_rows_f16(9), launch((9, 1, 1), (256, 1, 1), 0));
}

#[test]
fn attention_has_its_own_shapes() {
    assert_eq!(OpsKernels::rope(5, 16, 128), launch((5, 16, 1), (64, 1, 1), 0));
    assert_eq!(OpsKernels::fused_rope_kv(128, 16, 8, 5), launch((5, 24, 1), (64, 1, 1), 0));
    assert_eq!(OpsKernels::rope_kv_write(1024, 16, 8, 5), launch((5, 24, 1), (256, 1, 1), 0));
    assert_eq!(OpsKernels::mha_fused(128, 16, 5), launch((16, 5, 1), (32, 4, 1), 2080));
    assert_eq!(OpsKernels::mha_naive_full(16, 5, 100), launch((16, 5, 1), (1, 1, 1), 800));
    assert_eq!(OpsKernels::mha_naive_masked(16, 5, 100), launch((16, 5, 1), (128, 1, 1), 800));
    assert_eq!(OpsKernels::conv1d_causal_f16(64, 9), launch((64, 9, 1), (256, 1, 1), 0));
    assert_eq!(
        OpsKernels::conv_transpose1d_causal_f16(64, 9, 5),
        launch((64, 45, 1), (256, 1, 1), 0)
    );
}

#[test]
fn reductions_use_powers_of_two() {
    assert_eq!(OpsKernels::softmax_topk(60), launch((1, 1, 1), (64, 1, 1), 496));
    assert_eq!(OpsKernels::softmax_topk(64), launch((1, 1, 1), (64, 1, 1), 512));
    assert_eq!(
        OpsKernels::fused_moe_router(10, 5),
        launch((1, 1, 1), (8, 1, 1), 92)
    );
    assert_eq!(OpsKernels::argmax_f16(), launch((1, 1, 1), (256, 1, 1), 0));
}

#[test]
fn functions_are_listed() {
    assert_eq!(OpsKernels::function_name(0), "rms_norm");
    assert_eq!(OpsKernels::function_name(61), "clamp_f16");
    assert_eq!(SpeakerKernels::function_name(9), "softmax_channels_f16");
}

#[test]
fn unpacking_is_chosen_by_type() {
    let (name, at) = DequantKernels::prepare_dequant(1000, GgmlType::Q5_K).unwrap();
    assert_eq!(name, "dequant_q5_k");
    assert_eq!(at.grid, (4, 1, 1));
    assert_eq!(
        DequantKernels::prepare_dequant(1, GgmlType::IQ1_S).unwrap_err().message(),
        "kernel launch failed: no GPU dequant kernel for IQ1_S"
    );
}

#[test]
fn vector_products_are_chosen_by_type() {
    assert_eq!(GemvKernels::load(4096).input_bytes, 4608);
    assert_eq!(GemvKernels::quantize_input(4096).grid, (16, 1, 1));
    let (name, at) = GemvKernels::gemv(11, GgmlType::Q6_K).unwrap();
    assert_eq!(name, "gemv_q6_k");
    assert_eq!(at, launch((11, 1, 1), (128, 1, 1), 0));
    assert!(GemvKernels::gemv(11, GgmlType::F16).is_none());
    assert!(GemvKernels::gemv_dual(11, GgmlType::Q8_0).is_none());
    assert_eq!(GemvKernels::gemv_dual(11, GgmlType::Q4_K).unwrap().0, "gemv_dual_q4_k");
}

#[test]
fn scratch_space_is_capped() {
    assert_eq!(Gemm::new(10).scratch_elements(), 10);
    assert_eq!(Gemm::new(usize::MAX).scratch_elements(), MAX_SCRATCH_ELEMENTS);
}

#[test]
fn small_products_go_at_once() {
    match Gemm::new(4096).matmul_dequant(GgmlType::Q4_0, 4096, 64, 64) {
        DequantPlan::Whole { elements } => assert_eq!(elements, 4096),
        DequantPlan::Chunks(_) => panic!("expected one piece"),
    }
}

#[test]
fn large_products_go_in_chunks() {
    let chunks = match Gemm::new(64 * 70).matmul_dequant(GgmlType::Q4_0, 0, 200, 64) {
        DequantPlan::Chunks(chunks) => chunks,
        DequantPlan::Whole { .. } => panic!("expected pieces"),
    };
    assert_eq!(
        chunks[0],
        Chunk { first: 0, rows: 64, elements: 4096, byte_start: 0, byte_end: 64 * 36 }
    );
    let rows: Vec<u32> = chunks.iter().map(|chunk| chunk.rows).collect();
    assert_eq!(rows, vec![64, 64, 64, 8]);
    assert_eq!(chunks[3].first, 192);
    assert_eq!(chunks[3].byte_end, 200 * 36);
    let plain = match Gemm::new(10).matmul_dequant(GgmlType::F16, 0, 7, 3) {
        DequantPlan::Chunks(chunks) => chunks,
        DequantPlan::Whole { .. } => panic!("expected pieces"),
    };
    assert_eq!(plain.iter().map(|c| c.rows).collect::<Vec<_>>(), vec![3, 3, 1]);
    assert!(plain.iter().all(|c| c.elements <= 10));
    let few = match Gemm::new(64 * 2).matmul_dequant(GgmlType::Q4_0, 0, 5, 64) {
        DequantPlan::Chunks(chunks) => chunks,
        DequantPlan::Whole { .. } => panic!("expected pieces"),
    };
    assert_eq!(few.iter().map(|c| c.rows).collect::<Vec<_>>(), vec![2, 2, 1]);
    assert_eq!(
        few[1],
        Chunk { first: 2, rows: 2, elements: 128, byte_start: 2 * 36, byte_end: 4 * 36 }
    );
}

#[test]
fn batches_stand_side_by_side() {
    let gemm = Gemm::new(100);
    assert_eq!(
        gemm.batch_ranges(3, 4, 5).unwrap(),
        vec![(0, 20), (20, 40), (40, 60)]
    );
    let plan = gemm.matmul_dequant_strided_batched(3, 2, 4, 5).unwrap().unwrap();
    assert_eq!(plan.ranges, vec![(0, 20), (20, 40), (40, 60)]);
    assert_eq!((plan.products.stride_a, plan.products.stride_b), (20, 0));
    assert_eq!(plan.products.stride_c, 8);
    let plan = gemm.matmul_dequant_strided_batched_a_strided(3, 2, 4, 5, 10).unwrap().unwrap();
    assert_eq!(plan.products.stride_b, 10);
    assert!(gemm.matmul_dequant_strided_batched(0, 2, 4, 5).unwrap().is_none());
    assert!(gemm.matmul_dequant_strided_batched(6, 2, 4, 5).is_err());
    assert_eq!(gemm.batch_ranges(0, 4, 5).unwrap(), vec![]);
    assert_eq!(
        gemm.batch_ranges(6, 4, 5).unwrap_err().message(),
        "cuBLAS error: batched dequant scratch too small: need 120 elements, have 100"
    );
}

fn run(shape: GemmShape, first: &[i64], second: &[i64], out: &mut [i64]) {
    for j in 0..shape.n as usize {
        for i in 0..shape.m as usize {
            let mut sum = 0;
            for p in 0..shape.k as usize {
                let a = if shape.transposes_first {
                    i * shape.lda as usize + p
                } else {
                    p * shape.lda as usize + i
                };
                sum += first[a] * second[j * shape.ldb as usize + p];
            }
            out[j * shape.ldc as usize + i] = sum;
        }
    }
}

#[test]
fn column_major_shapes_give_row_major_products() {
    let a = [1, 2, 3, 4, 5, 6];
    let b = [1, 0, 2, 3, 1, 1, 0, 4, 5, 2, 2, 2];
    let mut c = [0; 8];
    run(Gemm::matmul_f16(2, 4, 3), &b, &a, &mut c);
    assert_eq!(c, [7, 8, 23, 12, 16, 23, 50, 30]);
    let mut d = [0; 8];
    run(Gemm::matmul_f16_nt(2, 4, 3), &b, &a, &mut d);
    assert_eq!(d[0], 1 * 1 + 2 * 1 + 3 * 5);
    assert_eq!(d[5], 4 * 0 + 5 * 1 + 6 * 2);
    let part = Gemm::gemm_chunked(2, 4, 3, 2);
    assert_eq!((part.m, part.ldc), (2, 4));
    let batch = Gemm::matmul_f16_strided_batched(2, 4, 3, 5);
    assert_eq!((batch.stride_a, batch.stride_b, batch.stride_c), (12, 6, 8));
    let strided = Gemm::matmul_f16_strided_batched_with_strides(2, 4, 3, 5, 0, 12, 8);
    assert_eq!((strided.stride_a, strided.stride_b), (12, 0));
}

#[test]
fn versions_are_put_down_to_what_the_driver_knows() {
    let src = "//\n.version 9.1\n.target sm_86\n";
    assert_eq!(
        downgrade_ptx_version_if_needed(src, 13000).unwrap(),
        "//\n.version 9.0\n.target sm_86\n"
    );
    assert_eq!(
        downgrade_ptx_version_if_needed(src, 12080).unwrap(),
        "//\n.version 8.8\n.target sm_86\n"
    );
    assert_eq!(
        downgrade_ptx_version_if_needed(src, 12079).unwrap(),
        "//\n.version 8.6\n.target sm_86\n"
    );
    assert_eq!(downgrade_ptx_version_if_needed(src, 13010), None);
    assert_eq!(downgrade_ptx_version_if_needed(src, 12050), None);
    assert_eq!(downgrade_ptx_version_if_needed("no version", 13000), None);
    assert_eq!(downgrade_ptx_version_if_needed(".version x.1", 13000), None);
    assert_eq!(downgrade_ptx_version_if_needed(".version 9", 13000), None);
    assert_eq!(
        downgrade_ptx_version_if_needed(".version +9.01", 13000).unwrap(),
        ".version +9.01"
    );
    assert_eq!(
        downgrade_ptx_version_if_needed(".version 99999999999.1", 13000),
        None
    );
}

#[test]
fn headers_are_looked_for_in_order() {
    assert_eq!(
        first_header_places(Some("/opt/cuda")),
        vec![
            "/opt/cuda/include",
            "/opt/cuda/targets/x86_64-linux/include",
            "/usr/local/cuda/include",
            "/usr/local/cuda/targets/x86_64-linux/include",
        ]
    );
    assert_eq!(first_header_places(None).len(), 2);
    let names = vec!["cuda-12.8".to_string(), "bin".to_string(), "cuda-13.0".to_string()];
    let places = versioned_header_places(&names);
    assert_eq!(places.len(), 4);
    assert_eq!(places[0], "/usr/local/cuda-12.8/targets/x86_64-linux/include");
    assert_eq!(
        last_place(&places).unwrap(),
        "/usr/local/cuda-13.0/targets/x86_64-linux/include"
    );
    assert_eq!(last_place(&[]), None);
    let names = vec!["cuda-12.4".to_string(), "cuda-9.2".to_string()];
    assert_eq!(
        last_place(&versioned_header_places(&names)).unwrap(),
        "/usr/local/cuda-12.4/targets/x86_64-linux/include"
    );
    let names = vec!["cuda-12.10".to_string(), "cuda-12.9".to_string()];
    assert_eq!(
        last_place(&versioned_header_places(&names)).unwrap(),
        "/usr/local/cuda-12.10/targets/x86_64-linux/include"
    );
}

#[test]
fn architectures_are_named() {
    assert_eq!(target_architecture(Some((9, 0))), "compute_90");
    assert_eq!(target_architecture(None), "compute_86");
}

#[test]
fn kernel_errors_are_told() {
    let text = |e: KernelError| e.message();
    assert_eq!(text(KernelError::Compile("x".into())), "kernel compile failed: x");
    assert_eq!(text(KernelError::Load("x".into())), "kernel load failed: x");
    assert_eq!(text(KernelError::Launch("x".into())), "kernel launch failed: x");
    assert_eq!(text(KernelError::Cublas("x".into())), "cuBLAS error: x");
}
