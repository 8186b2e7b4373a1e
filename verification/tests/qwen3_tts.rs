use chew_tts::catalog::TensorInfo;
use chew_tts::device::kernels::Kernel;
use chew_tts::device::{Plan, Scalar, Step};
use chew_tts::qwen3_tts::codec::{check_frame, wrap_code, CodecQuantizer};
use chew_tts::qwen3_tts::codec_encoder::{self, assemble_frames, CodecEncoder};
use chew_tts::qwen3_tts::config::{
    CodePredictorConfig, ModelType, Qwen3TtsConfig, SpeakerEncoderConfig, TalkerConfig,
};
use chew_tts::qwen3_tts::frontend::TalkerFrontend;
use chew_tts::qwen3_tts::inspect::{
    inspect_model, validate_required_tensors, weight_set, Error,
};
use chew_tts::qwen3_tts::layer::{TalkerDecoderLayer, TalkerLayerKvCache, TalkerLayerScratch};
use chew_tts::qwen3_tts::precision::{Bf16, QwenDType, F16};
use chew_tts::qwen3_tts::predictor::CodePredictorTransformer;
use chew_tts::qwen3_tts::sampling::{random_bits, top_k_candidates, total_order_key};
use chew_tts::qwen3_tts::speaker_encoder::{self, SpeakerEncoder};
use chew_tts::qwen3_tts::stack::TalkerTransformer;
use chew_tts::resolve::Request;
use chew_tts::weights::Loader;

fn launches(plan: &Plan, kernel: Kernel) -> usize {
    plan.step_list()
        .iter()
        .filter(|step| matches!(step, Step::Run(op) if op.kernel == kernel))
        .count()
}

fn keys(logits: &[f32], temperature: f32) -> Vec<i32> {
    logits.iter().map(|x| total_order_key((x / temperature).to_bits())).collect()
}

#[test]
fn top_one_is_argmax() {
    assert_eq!(
        top_k_candidates(&keys(&[-1.0, 4.0, 2.0], 0.9), &[true; 3], 1),
        vec![1]
    );
}

#[test]
fn filter_excludes_largest_logit() {
    assert_eq!(
        top_k_candidates(&keys(&[9.0, 4.0, 2.0], 0.9), &[false, true, true], 1),
        vec![1]
    );
}

#[test]
fn candidates_come_best_first() {
    let keys = keys(&[-3.0, 5.0, -0.5, 0.0, 5.5], 1.0);
    assert_eq!(top_k_candidates(&keys, &[true; 5], 3), vec![4, 1, 3]);
    assert_eq!(top_k_candidates(&keys, &[true; 5], 9), vec![4, 1, 3, 2, 0]);
    assert_eq!(top_k_candidates(&keys, &[true; 5], 0), vec![4]);
    assert_eq!(top_k_candidates(&keys, &[false; 5], 3), Vec::<usize>::new());
}

#[test]
fn keys_order_as_numbers_do() {
    let mut numbers = vec![3.5f32, -0.0, 0.0, f32::NEG_INFINITY, 1e-40, -7.25, f32::INFINITY];
    numbers.sort_by_key(|x| total_order_key(x.to_bits()));
    let mut expected = numbers.clone();
    expected.sort_by(f32::total_cmp);
    assert_eq!(
        numbers.iter().map(|x| x.to_bits()).collect::<Vec<_>>(),
        expected.iter().map(|x| x.to_bits()).collect::<Vec<_>>()
    );
    assert_eq!(total_order_key((-0.0f32).to_bits()), -1);
    assert_eq!(total_order_key(0), 0);
}

#[test]
fn draws_follow_the_seed() {
    let (mut zero, mut named) = (0, 0x9e37_79b9_7f4a_7c15);
    assert_eq!(random_bits(&mut zero), random_bits(&mut named));
    assert_eq!(zero, named);
    let mut one = 1;
    let bits = random_bits(&mut one);
    assert_eq!(one, 0x200_0001);
    assert_eq!(bits, (0x200_0001u64.wrapping_mul(0x2545_f491_4f6c_dd1d) >> 40) as u32);
}

fn config() -> TalkerConfig {
    TalkerConfig {
        hidden_size: 8,
        intermediate_size: 12,
        num_hidden_layers: 2,
        num_attention_heads: 2,
        num_key_value_heads: 1,
        head_dim: 4,
        vocab_size: 20,
        text_vocab_size: 30,
        text_hidden_size: 6,
        num_code_groups: 16,
        max_position_embeddings: 64,
        rope_theta: 1e6f64.to_bits(),
        rms_norm_eps: 1e-6f64.to_bits(),
        code_predictor_config: CodePredictorConfig {
            hidden_size: 8,
            intermediate_size: 12,
            num_hidden_layers: 3,
            num_attention_heads: 2,
            num_key_value_heads: 1,
            head_dim: 4,
            vocab_size: 20,
            num_code_groups: 16,
            max_position_embeddings: 64,
            rope_theta: 1e6f64.to_bits(),
            rms_norm_eps: 1e-6f64.to_bits(),
        },
        codec_language_id: vec![("english".to_string(), 3)],
    }
}

fn model_config() -> Qwen3TtsConfig {
    Qwen3TtsConfig {
        model_type: "qwen3_tts".to_string(),
        tokenizer_type: "t".to_string(),
        tts_model_size: "0b6".to_string(),
        tts_model_type: ModelType::Base,
        talker_config: config(),
        speaker_encoder_config: Some(SpeakerEncoderConfig { enc_dim: 1024, sample_rate: 24000 }),
    }
}

fn config_fault(change: impl Fn(&mut Qwen3TtsConfig)) -> String {
    let mut c = model_config();
    change(&mut c);
    c.validate().unwrap_err()
}

#[test]
fn every_rule_of_a_configuration_is_checked() {
    assert!(model_config().validate().is_ok());
    assert_eq!(
        config_fault(|c| c.model_type = "other".to_string()),
        "expected model_type qwen3_tts, got other"
    );
    assert_eq!(
        config_fault(|c| c.talker_config.num_code_groups = 1),
        "num_code_groups must be at least 2"
    );
    assert_eq!(
        config_fault(|c| c.talker_config.head_dim = 5),
        "talker query geometry mismatch: 2 heads * 5 != hidden 8"
    );
    assert_eq!(
        config_fault(|c| c.talker_config.num_key_value_heads = 3),
        "talker KV heads exceed query heads"
    );
    assert_eq!(
        config_fault(|c| c.talker_config.num_code_groups = 15),
        "talker and code predictor disagree on code groups"
    );
    assert_eq!(
        config_fault(|c| c.talker_config.code_predictor_config.num_key_value_heads = 3),
        "code predictor KV heads exceed query heads"
    );
    assert_eq!(
        config_fault(|c| c.talker_config.code_predictor_config.num_hidden_layers = 0),
        "code predictor must have layers and a vocabulary"
    );
}

fn info(name: &str, shape: &[usize]) -> TensorInfo {
    TensorInfo { name: name.to_string(), shape: shape.to_vec(), bytes: 4 }
}

fn required() -> Vec<TensorInfo> {
    vec![
        info("talker.model.codec_embedding.weight", &[1]),
        info("talker.model.text_embedding.weight", &[1]),
        info("talker.codec_head.weight", &[1]),
        info("talker.code_predictor.model.norm.weight", &[1]),
    ]
}

#[test]
fn the_last_file_owns_a_name() {
    let set = weight_set(3, vec![info("b", &[1]), info("a", &[1]), info("b", &[2])], vec![0, 1, 2])
        .unwrap();
    assert_eq!(set.locate("b").unwrap(), 2);
    assert_eq!(set.locate("a").unwrap(), 1);
    assert_eq!(set.locate("c").unwrap_err().message(), "tensor not found: c");
    assert_eq!(set.tensors[0].name, "a");
    assert_eq!(
        weight_set(0, vec![], vec![]).err().unwrap().message(),
        "no .safetensors weight files found"
    );
}

#[test]
fn models_are_inspected() {
    let found = inspect_model(model_config(), vec!["w".to_string()], required(), vec![0; 4]).unwrap();
    assert_eq!(found.total_weight_bytes, 16);
    assert_eq!(found.weight_files, vec!["w".to_string()]);
    let names: Vec<String> = required().into_iter().map(|tensor| tensor.name).collect();
    assert_eq!(found.weights.names, names);
    assert_eq!(found.weights.locate(&names[0]).unwrap(), 0);
    for i in 0..4 {
        let mut tensors = required();
        let name = tensors.remove(i).name;
        let error = validate_required_tensors(&tensors).unwrap_err();
        assert_eq!(error.message(), format!("required tensor is missing: {name}"));
        assert!(matches!(
            inspect_model(model_config(), vec!["w".to_string()], tensors, vec![0; 3]),
            Err(Error::MissingTensor(_))
        ));
    }
    let mut c = model_config();
    c.model_type = "x".to_string();
    assert_eq!(
        inspect_model(c, vec!["w".to_string()], required(), vec![0; 4]).err().unwrap().message(),
        "invalid config: expected model_type qwen3_tts, got x"
    );
    assert!(matches!(
        inspect_model(model_config(), vec![], vec![], vec![]),
        Err(Error::MissingWeights)
    ));
}

#[test]
fn tokens_are_embedded_and_scored() {
    let mut loader = Loader::new();
    let frontend = TalkerFrontend::load(&mut loader, &config());
    assert_eq!(loader.count(), 7);
    let mut plan = loader.into_plan();
    let text = frontend.project_text_tokens(&mut plan, &[0, 29]).unwrap();
    assert_eq!(plan.size(text), 16);
    assert_eq!(
        frontend.project_text_tokens(&mut plan, &[0, 30]).unwrap_err(),
        "text token 30 is outside 0..30"
    );
    assert_eq!(
        frontend.project_text_tokens(&mut plan, &[]).unwrap_err(),
        "at least one text token is required"
    );
    let codec = frontend.codec_embeddings(&mut plan, &[19]).unwrap();
    assert_eq!(plan.size(codec), 8);
    assert_eq!(
        frontend.codec_embeddings(&mut plan, &[-1]).unwrap_err(),
        "codec token -1 is outside 0..20"
    );
    let best = frontend.semantic_argmax(&mut plan, 8).unwrap();
    assert_eq!(plan.size(best), 1);
    assert_eq!(
        frontend.semantic_argmax(&mut plan, 7).unwrap_err(),
        "talker hidden has 7 values, expected 8"
    );
}

#[test]
fn layers_step_with_their_cache() {
    let c = config();
    let mut loader = Loader::new();
    let layer = TalkerDecoderLayer::<F16>::load(&mut loader, 1, &c);
    assert_eq!(loader.count(), 11);
    assert!(loader.requirements()[0].name.starts_with("talker.model.layers.1."));
    let mut plan = loader.into_plan();
    let mut cache = TalkerLayerKvCache::allocate(&mut plan, 3, &c).unwrap();
    let out = layer.forward_cached(&mut plan, 16, 2, &c, &mut cache).unwrap();
    assert_eq!(plan.size(out), 16);
    assert_eq!(cache.position(), 2);
    assert!(layer.forward_cached(&mut plan, 16, 2, &c, &mut cache).is_err());
    assert_eq!(cache.position(), 2);
    cache.reset();
    assert_eq!(cache.position(), 0);
    let scratch = TalkerLayerScratch::<F16>::allocate(&mut plan, 2, &c).unwrap();
    let hidden = plan.given(16);
    layer.forward_cached_device(&mut plan, hidden, 2, &c, &mut cache, &scratch).unwrap();
    assert_eq!(cache.position(), 2);
    let out = layer.forward_prefill(&mut plan, 24, 3, &c).unwrap();
    assert_eq!(plan.size(out), 24);
    assert_eq!(
        layer.forward_prefill(&mut plan, 24, 0, &c).unwrap_err(),
        "KV cache capacity must be non-zero"
    );
    assert_eq!(
        layer.forward_prefill(&mut plan, 24, 2, &c).unwrap_err(),
        "hidden input has 24 values, expected 16"
    );
    let out = layer.forward_first_token(&mut plan, 8, &c).unwrap();
    assert_eq!(plan.size(out), 8);
    assert_eq!(
        layer.forward_first_token(&mut plan, 9, &c).unwrap_err(),
        "hidden input has 9 values, expected 8"
    );
    assert_eq!(
        TalkerLayerKvCache::allocate(&mut plan, 0, &c).err().unwrap(),
        "KV cache capacity must be non-zero"
    );
    assert_eq!(
        TalkerLayerScratch::<F16>::allocate(&mut plan, 0, &c).err().unwrap(),
        "scratch capacity must be non-zero"
    );
}

#[test]
fn architectures_have_their_own_tensors() {
    let c = config();
    let mut loader = Loader::new();
    TalkerDecoderLayer::<F16>::load_qwen2_from_prefix(&mut loader, "m", &c);
    assert_eq!(loader.count(), 12);
    let mut loader = Loader::new();
    let model = TalkerTransformer::<F16>::load_qwen2(&mut loader, "m", &c, false);
    assert_eq!((loader.count(), model.final_norm), (24, None));
    let mut loader = Loader::new();
    let model = TalkerTransformer::<F16>::load_minicpm(
        &mut loader,
        "m",
        &c,
        Some(vec![1.0f32.to_bits(), 2.0f32.to_bits()]),
        false,
        true,
    )
    .unwrap();
    assert_eq!((loader.count(), model.final_norm), (19, Some(18)));
    assert_eq!(model.rope_factors, Some(vec![1.0f32.to_bits(), 2.0f32.to_bits()]));
    assert_eq!((model.apply_rope, model.causal_attention), (false, true));
    assert_eq!(
        TalkerTransformer::<F16>::load_minicpm(&mut loader, "m", &c, Some(vec![0; 3]), true, true)
            .err()
            .unwrap(),
        "MiniCPM LongRoPE has 3 factors, expected 2"
    );
}

#[test]
fn sessions_count_their_tokens() {
    let c = config();
    let mut loader = Loader::new();
    let model = TalkerTransformer::<F16>::load(&mut loader, &c);
    assert_eq!(model.layer_count(), 2);
    assert_eq!(loader.count(), 23);
    let mut plan = loader.into_plan();
    let mut session = model.start_session(&mut plan, 4, 3, &c).unwrap();
    assert_eq!(session.position(), 0);
    model.forward_session(&mut plan, &mut session, 24, 3, &c).unwrap();
    assert_eq!(session.position(), 3);
    assert_eq!(
        model.forward_session(&mut plan, &mut session, 16, 2, &c).unwrap_err(),
        "session length 5 exceeds maximum 4"
    );
    assert_eq!(
        model.forward_session(&mut plan, &mut session, 32, 4, &c).unwrap_err(),
        "sequence has 4 tokens, scratch holds 3"
    );
    assert_eq!(
        model.forward_session(&mut plan, &mut session, 8, 0, &c).unwrap_err(),
        "sequence length must be non-zero"
    );
    model.forward_session(&mut plan, &mut session, 8, 1, &c).unwrap();
    assert_eq!(session.position(), 4);
    session.reset();
    assert_eq!(session.position(), 0);
    assert_eq!(
        model.start_session(&mut plan, 0, 1, &c).err().unwrap(),
        "maximum sequence length must be non-zero"
    );
    assert_eq!(
        model.start_session(&mut plan, 1, 0, &c).err().unwrap(),
        "maximum batch token count must be non-zero"
    );
}

fn launched(plan: &Plan, from: usize) -> Vec<(Kernel, Vec<Scalar>)> {
    plan.step_list()[from..]
        .iter()
        .filter_map(|step| match step {
            Step::Run(op) => Some((op.kernel, op.scalars.clone())),
            _ => None,
        })
        .collect()
}

#[test]
fn a_fresh_session_runs_what_one_pass_runs() {
    let c = config();
    let mut loader = Loader::new();
    let model = TalkerTransformer::<F16>::load(&mut loader, &c);
    let mut plan = loader.into_plan();
    let start = plan.step_list().len();
    model.forward_hidden(&mut plan, 24, 3, 4, &c).unwrap();
    let whole = launched(&plan, start);
    let mut session = model.start_session(&mut plan, 4, 3, &c).unwrap();
    let start = plan.step_list().len();
    model.forward_session(&mut plan, &mut session, 24, 3, &c).unwrap();
    assert_eq!(launched(&plan, start), whole);
    assert_eq!(
        model.forward_hidden(&mut plan, 24, 3, 2, &c).unwrap_err(),
        "maximum sequence length 2 is below prompt length 3"
    );
}

#[test]
fn precisions_use_their_own_kernels() {
    let mut plan = Plan::new();
    let (a, b, out) = (plan.given(6), plan.given(12), plan.zeros(8));
    F16::matmul(&mut plan, a, b, out, 2, 4, 3);
    Bf16::matmul(&mut plan, a, b, out, 2, 4, 3);
    F16::silu_act(&mut plan, a, out, 6);
    Bf16::silu_act(&mut plan, a, out, 6);
    let kernels: Vec<Kernel> = launched(&plan, 0).into_iter().map(|(kernel, _)| kernel).collect();
    assert_eq!(
        kernels,
        vec![Kernel::MatmulF16, Kernel::MatmulBf16, Kernel::SiluActF16, Kernel::SiluActBf16]
    );
}

#[test]
fn stacks_run_in_their_precision() {
    let c = config();
    let kernels = |bf16: bool, tokens: usize| -> Vec<Kernel> {
        let mut loader = Loader::new();
        if bf16 {
            let model = TalkerTransformer::<Bf16>::load_qwen2(&mut loader, "m", &c, true);
            let mut plan = loader.into_plan();
            model.forward_hidden(&mut plan, 8 * tokens, tokens, tokens, &c).unwrap();
            launched(&plan, 0).into_iter().map(|(kernel, _)| kernel).collect()
        } else {
            let model = TalkerTransformer::<F16>::load_qwen2(&mut loader, "m", &c, true);
            let mut plan = loader.into_plan();
            model.forward_hidden(&mut plan, 8 * tokens, tokens, tokens, &c).unwrap();
            launched(&plan, 0).into_iter().map(|(kernel, _)| kernel).collect()
        }
    };
    let half = kernels(false, 2);
    let brain = kernels(true, 2);
    assert_eq!(half[..4], [Kernel::RmsNormF32in, Kernel::MatmulF16, Kernel::MatmulF16, Kernel::MatmulF16]);
    assert_eq!(
        brain[..4],
        [Kernel::RmsNormF32inBf16, Kernel::MatmulBf16, Kernel::MatmulBf16, Kernel::MatmulBf16]
    );
    let count = |list: &[Kernel], kernel: Kernel| list.iter().filter(|k| **k == kernel).count();
    assert_eq!(count(&brain, Kernel::AddBiasBf16Inplace), 6);
    assert_eq!(count(&brain, Kernel::CopyBf16ToF16), 6);
    assert_eq!(count(&brain, Kernel::CopyF16ToBf16), 2);
    assert_eq!(count(&brain, Kernel::MatmulF16), 0);
    assert_eq!(count(&half, Kernel::CopyBf16ToF16), 0);
    assert_eq!(brain.len(), half.len() + 8);
    assert_eq!(brain.last(), Some(&Kernel::RmsNormF32inBf16));
    assert_eq!(half.last(), Some(&Kernel::RmsNormF32in));
    let single = kernels(true, 1);
    assert_eq!(count(&single, Kernel::GemvBf16), 10);
    assert_eq!(count(&single, Kernel::GemvDualBf16), 2);
    assert_eq!(count(&single, Kernel::SiluBf16), 2);
    assert_eq!(count(&single, Kernel::AddInplaceF32Bf16), 4);
}

#[test]
fn states_stay_apart() {
    let mut states: Vec<u64> = (1..200).collect();
    for state in states.iter_mut() {
        random_bits(state);
        assert!(*state != 0);
    }
    states.sort();
    states.dedup();
    assert_eq!(states.len(), 199);
}

#[test]
fn prompts_seed_a_session() {
    let c = config();
    let mut loader = Loader::new();
    let model = TalkerTransformer::<F16>::load(&mut loader, &c);
    let mut plan = loader.into_plan();
    let mut session = model.start_session(&mut plan, 6, 3, &c).unwrap();
    assert_eq!(
        session.load_prompt_kv(&mut plan, 3, 2, &c).unwrap_err(),
        "prompt has 3 KV layers, session expects 2"
    );
    session.load_prompt_kv(&mut plan, 2, 4, &c).unwrap();
    assert_eq!(session.position(), 4);
    assert!(model.forward_session(&mut plan, &mut session, 24, 3, &c).is_err());
    model.forward_session(&mut plan, &mut session, 16, 2, &c).unwrap();
    assert_eq!(session.position(), 6);
}

#[test]
fn code_predictors_run_their_own_geometry() {
    let mut loader = Loader::new();
    let model = CodePredictorTransformer::load(&mut loader, &config().code_predictor_config);
    assert_eq!(model.layer_count(), 3);
    assert_eq!(loader.count(), 34);
    let mut plan = loader.into_plan();
    model.forward_hidden(&mut plan, 16, 2, 2).unwrap();
    assert_eq!(
        model.forward_hidden(&mut plan, 16, 2, 1).unwrap_err(),
        "KV cache is smaller than the input"
    );
}

#[test]
fn codes_are_looked_up_and_checked() {
    assert_eq!(wrap_code(5), 5);
    assert_eq!(wrap_code(2048), 0);
    assert_eq!(wrap_code(-1), 2047);
    assert!(check_frame(&[7; 16]).is_ok());
    assert_eq!(
        check_frame(&[7; 15]).unwrap_err(),
        "codec frame has 15 codes, expected 16"
    );
    let mut codes = [0; 16];
    codes[0] = 5000;
    assert!(check_frame(&codes).is_ok());
    codes[4] = 2048;
    assert_eq!(
        check_frame(&codes).unwrap_err(),
        "acoustic code 2048 at group 4 is outside 0..2048"
    );
}

#[test]
fn frames_are_decoded_in_stages() {
    let mut loader = Loader::new();
    let codec = CodecQuantizer::load(&mut loader);
    assert_eq!(loader.count(), 151);
    let sum = "decoder.quantizer.rvq_first.vq.layers.0._codebook.embedding_sum";
    let usage = "decoder.quantizer.rvq_first.vq.layers.0._codebook.cluster_usage";
    let listed = |name: &str| TensorInfo { name: name.to_string(), shape: vec![1], bytes: 0 };
    assert_eq!(
        loader.check(&[listed(sum)]).unwrap_err(),
        format!("tensor not found: {usage}")
    );
    assert_eq!(
        loader.check(&[listed(sum), listed(usage)]).unwrap_err(),
        "decoder.quantizer.rvq_first.vq.layers.0 embedding_sum has shape [1]"
    );
    let mut plan = loader.into_plan();
    let latent = codec.decode_frame(&mut plan, &[1; 16]).unwrap();
    assert_eq!(plan.size(latent), 512);
    assert_eq!(launches(&plan, Kernel::AddInplaceF32F16), 15);
    let row = codec.decode_frame_preconv(&mut plan, &[1; 16]).unwrap();
    assert_eq!(plan.size(row), 1024);
    let row = codec.decode_frame_transformer(&mut plan, &[1; 16]).unwrap();
    assert_eq!(plan.size(row), 1024);
    let rows = codec.decode_frame_upsampled(&mut plan, &[1; 16]).unwrap();
    assert_eq!(plan.size(rows), 4096);
    let steps = plan.step_list().len();
    assert!(codec.decode_frame_upsampled(&mut plan, &[-1; 16]).is_err());
    assert_eq!(plan.step_list().len(), steps);
}

/// Tensors for requests, in shapes that `shape` gives by name; a bias is as
/// long as the weight before it.
fn tensors_for(requests: &[Request], shape: impl Fn(&str) -> Vec<usize>) -> Vec<TensorInfo> {
    let mut tensors: Vec<TensorInfo> = Vec::new();
    for request in requests {
        let found = if request.name.ends_with(".bias") && request.name.contains("conv")
            || request.name.ends_with("fc.bias")
        {
            vec![tensors.last().unwrap().shape[0]]
        } else {
            shape(&request.name)
        };
        tensors.push(info(&request.name, &found));
    }
    tensors
}

fn speaker_shape(name: &str) -> Vec<usize> {
    if name.contains("blocks.0.conv") && !name.contains("res2net") {
        vec![512, 128, 5]
    } else if name.contains("res2net") {
        vec![64, 64, 3]
    } else if name.contains("se_block.conv1") {
        vec![128, 512, 1]
    } else if name.contains("se_block.conv2") {
        vec![512, 128, 1]
    } else if name.contains(".blocks.") {
        vec![512, 512, 1]
    } else if name.contains("mfa") {
        vec![1536, 1536, 1]
    } else if name.contains("asp.tdnn") {
        vec![128, 4608, 1]
    } else if name.contains("asp.conv") {
        vec![1536, 128, 1]
    } else {
        vec![2048, 3072, 1]
    }
}

#[test]
fn a_voice_becomes_one_embedding() {
    let requests = speaker_encoder::list_requests();
    assert_eq!(requests.len(), 76);
    let mut tensors = tensors_for(&requests, speaker_shape);
    let mut plan = Plan::new();
    let model = SpeakerEncoder::load(&mut plan, &tensors).unwrap();
    assert_eq!(model.blocks.len(), 3);
    assert_eq!(model.initial.kernel_size, 5);
    let out = model.encode_mel(&mut plan, 128 * 10, 10).unwrap();
    assert_eq!(plan.size(out), 2048);
    assert_eq!(
        model.encode_mel(&mut plan, 0, 0).unwrap_err(),
        "speaker mel has no frames"
    );
    assert_eq!(
        model.encode_mel(&mut plan, 5, 10).unwrap_err(),
        "speaker mel has 5 values, expected 1280"
    );
    tensors[0].shape = vec![512, 128, 0];
    assert_eq!(
        SpeakerEncoder::load(&mut Plan::new(), &tensors).err().unwrap(),
        "speaker_encoder.blocks.0.conv.weight has invalid shape [512, 128, 0]"
    );
}

fn encoder_shape(name: &str) -> Vec<usize> {
    for (stage, kernel) in [(0, 8), (1, 10), (2, 12), (3, 16)] {
        let channels = 64 << stage;
        let (residual, down) = (3 * stage + 1, 3 * stage + 3);
        if name == format!("encoder.encoder.layers.{residual}.block.1.conv.weight") {
            return vec![channels / 2, channels, 3];
        }
        if name == format!("encoder.encoder.layers.{residual}.block.3.conv.weight") {
            return vec![channels, channels / 2, 1];
        }
        if name == format!("encoder.encoder.layers.{down}.conv.weight") {
            return vec![2 * channels, channels, kernel];
        }
    }
    if name == "encoder.encoder.layers.0.conv.weight" {
        vec![64, 1, 7]
    } else if name == "encoder.encoder.layers.14.conv.weight" {
        vec![512, 1024, 3]
    } else if name == "encoder.downsample.conv.weight" {
        vec![512, 512, 4]
    } else if name.ends_with("input_proj.weight") {
        vec![256, 512, 1]
    } else if name.ends_with("embed_sum") {
        vec![2048, 256]
    } else if name.ends_with("cluster_usage") {
        vec![2048]
    } else if name.contains("fc1") {
        vec![2048, 512]
    } else if name.contains("fc2") {
        vec![512, 2048]
    } else if name.contains("proj") {
        vec![512, 512]
    } else {
        vec![512]
    }
}

#[test]
fn a_recording_becomes_frames_of_codes() {
    let requests = codec_encoder::list_requests();
    assert_eq!(requests.len(), 159);
    let mut tensors = tensors_for(&requests, encoder_shape);
    let mut plan = Plan::new();
    let model = CodecEncoder::load(&mut plan, &tensors).unwrap();
    assert_eq!((model.stages.len(), model.transformer.len()), (4, 8));
    let encoded = model.encode(&mut plan, 3841).unwrap();
    assert_eq!(encoded.frames, 3);
    assert_eq!((encoded.semantic.len(), encoded.acoustic.len()), (1, 15));
    assert_eq!(model.encode(&mut plan, 1920).unwrap().frames, 1);
    let last = tensors.len() - 1;
    assert!(tensors[last - 1].name.ends_with("embed_sum"));
    tensors[last - 1].shape = vec![2048, 255];
    assert_eq!(
        CodecEncoder::load(&mut Plan::new(), &tensors).err().unwrap(),
        format!("{} has shape [2048, 255]", tensors[last - 1].name)
    );
    let usage = tensors.pop().unwrap().name;
    assert_eq!(
        CodecEncoder::load(&mut Plan::new(), &tensors).err().unwrap(),
        format!("tensor not found: {usage}")
    );
}

#[test]
fn frames_put_the_semantic_code_first() {
    let acoustic: Vec<Vec<i32>> = (0..15).map(|g| vec![10 * g, 10 * g + 1]).collect();
    let frames = assemble_frames(&vec![7, 8], &acoustic, 2);
    assert_eq!(frames.len(), 2);
    assert_eq!(frames[0][..4], [7, 0, 10, 20]);
    assert_eq!(frames[1][..4], [8, 1, 11, 21]);
    assert_eq!(frames[1].len(), 16);
}
