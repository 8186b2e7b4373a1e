use chew_tts::catalog::TensorInfo;
use chew_tts::device::{Plan, Scalar, Step};
use chew_tts::device::kernels::Kernel;
use chew_tts::vibevoice::backbone::{transformer_config, VibeVoiceBackbones};
use chew_tts::vibevoice::config::{
    AcousticTokenizerConfig, DecoderConfig, DiffusionHeadConfig, VibeVoiceConfig,
};
use chew_tts::vibevoice::decoder::VibeVoiceAcousticDecoder;
use chew_tts::vibevoice::diffusion::VibeVoiceDiffusionHead;
use chew_tts::vibevoice::generation::{check_scaling, VibeVoiceGenerationWeights};
use chew_tts::vibevoice::inspect::{inspect_model, validate_required_tensors};
use chew_tts::vibevoice::scheduler::{linspace_timesteps, Order, VibeVoiceScheduler};
use chew_tts::vibevoice::voice::{
    branch_geometry, load_branch, BranchTensors, PromptTensor, VibeVoicePrompt,
};
use chew_tts::weights::Loader;

fn config() -> VibeVoiceConfig {
    VibeVoiceConfig {
        acoustic_vae_dim: 64,
        acoustic_tokenizer_config: AcousticTokenizerConfig {
            causal: true,
            channels: 1,
            decoder_n_filters: 32,
            decoder_ratios: vec![8, 5, 5, 4, 2, 2],
            layernorm_eps: 1e-5f64.to_bits(),
            model_type: "vibevoice_acoustic_tokenizer".to_string(),
            vae_dim: 64,
        },
        architectures: vec![
            "VibeVoiceStreamingForConditionalGenerationInference".to_string(),
        ],
        decoder_config: DecoderConfig {
            hidden_size: 896,
            intermediate_size: 4864,
            max_position_embeddings: 8192,
            model_type: "qwen2".to_string(),
            num_attention_heads: 14,
            num_hidden_layers: 24,
            num_key_value_heads: 2,
            rms_norm_eps: 1e-6f64.to_bits(),
            rope_theta: 1e6f64.to_bits(),
            torch_dtype: "bfloat16".to_string(),
            vocab_size: 151936,
        },
        diffusion_head_config: DiffusionHeadConfig {
            ddpm_beta_schedule: "cosine".to_string(),
            ddpm_num_inference_steps: 20,
            ddpm_num_steps: 1000,
            diffusion_type: "ddpm".to_string(),
            head_ffn_ratio: 3.0f64.to_bits(),
            head_layers: 4,
            hidden_size: 896,
            latent_size: 64,
            model_type: "vibevoice_diffusion_head".to_string(),
            prediction_type: "v_prediction".to_string(),
            rms_norm_eps: 1e-5f64.to_bits(),
            speech_vae_dim: 64,
        },
        model_type: "vibevoice_streaming".to_string(),
        torch_dtype: "bfloat16".to_string(),
        tts_backbone_num_hidden_layers: 20,
    }
}

fn info(name: &str, shape: &[usize]) -> TensorInfo {
    TensorInfo {
        name: name.to_string(),
        shape: shape.to_vec(),
        bytes: 2 * shape.iter().product::<usize>(),
    }
}

fn reason(config: &VibeVoiceConfig) -> String {
    config.validate().unwrap_err()
}

#[test]
fn validates_official_realtime_geometry() {
    let config = config();
    config.validate().expect("official geometry validates");
    assert_eq!(config.head_dim(), 64);
    assert_eq!(config.text_layers(), 4);
    assert_eq!(config.samples_per_latent(), 3_200);
}

#[test]
fn official_twenty_step_schedule_matches_reference() {
    let scheduler =
        VibeVoiceScheduler::new(&config().diffusion_head_config, 20).expect("scheduler");
    assert_eq!(
        scheduler.timesteps(),
        &[
            999, 949, 899, 849, 799, 749, 699, 649, 599, 549, 500, 450, 400, 350, 300, 250, 200,
            150, 100, 50
        ]
    );
    let noise = scheduler.noise_steps();
    assert_eq!(noise.len(), 21);
    assert_eq!(noise[20], None);
    assert_eq!(noise[0], Some(999));
}

#[test]
fn every_rule_of_the_configuration_is_checked() {
    let mut c = config();
    c.model_type = "qwen".to_string();
    assert_eq!(reason(&c), "unsupported VibeVoice model type \"qwen\"");
    let mut c = config();
    c.architectures = vec!["Other".to_string()];
    assert_eq!(
        reason(&c),
        "checkpoint is not a VibeVoice streaming inference model"
    );
    let mut c = config();
    c.decoder_config.model_type = "a\"b".to_string();
    assert_eq!(reason(&c), "unsupported VibeVoice decoder \"a\\\"b\"");
    let mut c = config();
    c.acoustic_tokenizer_config.model_type = String::new();
    assert_eq!(reason(&c), "unsupported VibeVoice acoustic tokenizer \"\"");
    let mut c = config();
    c.diffusion_head_config.model_type = "x".to_string();
    assert_eq!(reason(&c), "unsupported VibeVoice diffusion head \"x\"");
    let mut c = config();
    c.decoder_config.torch_dtype = "float16".to_string();
    assert_eq!(
        reason(&c),
        "VibeVoice-Realtime native path requires BF16 weights"
    );
    let mut c = config();
    c.decoder_config.num_attention_heads = 13;
    assert_eq!(
        reason(&c),
        "VibeVoice hidden size is not divisible by its attention heads"
    );
    let mut c = config();
    c.decoder_config.num_key_value_heads = 3;
    assert_eq!(
        reason(&c),
        "VibeVoice attention heads are not divisible by KV heads"
    );
    let mut c = config();
    c.tts_backbone_num_hidden_layers = 24;
    assert_eq!(
        reason(&c),
        "VibeVoice TTS backbone must leave at least one text-only layer"
    );
    let mut c = config();
    c.diffusion_head_config.speech_vae_dim = 63;
    assert_eq!(reason(&c), "VibeVoice acoustic latent dimensions disagree");
    let mut c = config();
    c.diffusion_head_config.hidden_size = 1;
    assert_eq!(
        reason(&c),
        "VibeVoice diffusion and decoder hidden sizes disagree"
    );
    let mut c = config();
    c.acoustic_tokenizer_config.causal = false;
    assert_eq!(
        reason(&c),
        "VibeVoice-Realtime requires a causal acoustic decoder"
    );
    let mut c = config();
    c.acoustic_tokenizer_config.channels = 2;
    assert_eq!(reason(&c), "only mono VibeVoice audio is supported");
    let mut c = config();
    c.acoustic_tokenizer_config.decoder_ratios[3] = 0;
    assert_eq!(reason(&c), "VibeVoice decoder ratios must be non-zero");
    let mut c = config();
    c.diffusion_head_config.ddpm_num_inference_steps = 1001;
    assert_eq!(reason(&c), "invalid VibeVoice diffusion schedule");
}

fn required() -> Vec<TensorInfo> {
    [
        "model.language_model.embed_tokens.weight",
        "model.tts_input_types.weight",
        "model.acoustic_connector.fc1.weight",
        "model.prediction_head.noisy_images_proj.weight",
        "tts_eos_classifier.fc1.weight",
        "model.language_model.layers.3.self_attn.q_proj.weight",
        "model.tts_language_model.layers.19.self_attn.q_proj.weight",
    ]
    .iter()
    .map(|name| info(name, &[2, 3]))
    .collect()
}

#[test]
fn required_tensors_are_looked_for_in_order() {
    let all = required();
    assert!(validate_required_tensors(&config(), &all).is_ok());
    for missing in 0..all.len() {
        let rest = all
            .iter()
            .skip(missing + 1)
            .map(|t| info(&t.name, &t.shape))
            .chain(all.iter().take(missing).map(|t| info(&t.name, &t.shape)))
            .collect::<Vec<_>>();
        assert_eq!(
            validate_required_tensors(&config(), &rest)
                .unwrap_err()
                .message(),
            format!("VibeVoice checkpoint is missing tensor {}", all[missing].name)
        );
    }
}

#[test]
fn a_model_is_summarised() {
    let inspection = inspect_model(config(), "m.safetensors".to_string(), Some(required())).unwrap();
    assert_eq!(inspection.total_weight_bytes, 7 * 12);
    assert_eq!(
        inspect_model(config(), "m.safetensors".to_string(), None)
            .unwrap_err()
            .message(),
        "missing VibeVoice weights m.safetensors"
    );
    let mut bad = config();
    bad.acoustic_tokenizer_config.channels = 2;
    assert_eq!(
        inspect_model(bad, String::new(), None).unwrap_err().message(),
        "invalid VibeVoice configuration: only mono VibeVoice audio is supported"
    );
}

#[test]
fn a_schedule_can_be_followed_to_its_end() {
    let mut solver = VibeVoiceScheduler::new(&config().diffusion_head_config, 20).unwrap();
    let steps = solver.timesteps().to_vec();
    for (i, step) in steps.iter().enumerate() {
        let plan = solver.step(64, *step, 64).unwrap();
        assert_eq!(plan.index, i);
        let first = i == 0 || i == 19;
        assert_eq!(plan.order, if first { Order::First } else { Order::Second });
    }
    assert_eq!(
        solver.step(64, 0, 64).unwrap_err(),
        "scheduler is already complete"
    );
    solver.reset();
    assert_eq!(solver.step(64, 999, 64).unwrap().index, 0);
}

#[test]
fn schedules_and_steps_are_checked() {
    let mut c = config().diffusion_head_config;
    assert_eq!(
        VibeVoiceScheduler::new(&c, 0).unwrap_err(),
        "DDPM needs inference steps"
    );
    c.ddpm_num_steps = 0;
    assert_eq!(
        VibeVoiceScheduler::new(&c, 2).unwrap_err(),
        "DDPM needs training steps"
    );
    c.prediction_type = "epsilon".to_string();
    assert_eq!(
        VibeVoiceScheduler::new(&c, 2).unwrap_err(),
        "only velocity prediction is supported"
    );
    c.ddpm_beta_schedule = "linear".to_string();
    assert_eq!(
        VibeVoiceScheduler::new(&c, 2).unwrap_err(),
        "only the cosine DDPM schedule is supported"
    );
    c.diffusion_type = "sde".to_string();
    assert_eq!(
        VibeVoiceScheduler::new(&c, 2).unwrap_err(),
        "only DDPM is supported"
    );
    let mut solver = VibeVoiceScheduler::new(&config().diffusion_head_config, 20).unwrap();
    assert_eq!(
        solver.step(63, 999, 64).unwrap_err(),
        "scheduler model/sample size mismatch"
    );
    solver.step(64, 999, 64).unwrap();
    assert_eq!(
        solver.step(32, 949, 32).unwrap_err(),
        "second-order scheduler size mismatch"
    );
    let mut late = VibeVoiceScheduler::new(&config().diffusion_head_config, 20).unwrap();
    assert_eq!(late.step(1, 12345, 1).unwrap().index, 19);
}

#[test]
fn spaced_steps_round_halves_up() {
    assert_eq!(linspace_timesteps(1000, 1), vec![999]);
    assert_eq!(linspace_timesteps(4, 2), vec![3, 2]);
    assert_eq!(linspace_timesteps(1, 3), vec![0, 0, 0]);
    for (t, n) in [(1000usize, 7usize), (1000, 20), (37, 12), (999, 50)] {
        let expected: Vec<usize> = (1..=n)
            .rev()
            .map(|i| ((t - 1) as f64 * i as f64 / n as f64).round() as usize)
            .collect();
        assert_eq!(linspace_timesteps(t, n), expected);
        assert_eq!(expected[0], t - 1);
        assert!(expected.windows(2).all(|pair| pair[0] >= pair[1]));
    }
}

fn branch(tokens: usize, layers: usize) -> BranchTensors {
    let cache = || PromptTensor {
        shape: vec![1, 2, tokens, 64],
        bits: vec![7; 2 * tokens * 64],
    };
    BranchTensors {
        hidden: PromptTensor {
            shape: vec![1, tokens, 896],
            bits: vec![1; tokens * 896],
        },
        layers: (0..layers).map(|_| (cache(), cache())).collect(),
    }
}

#[test]
fn a_prompt_is_loaded() {
    let c = config();
    assert_eq!(branch_geometry(0, &c), ("lm", 4));
    assert_eq!(branch_geometry(1, &c), ("tts_lm", 20));
    assert_eq!(branch_geometry(2, &c), ("neg_lm", 4));
    assert_eq!(branch_geometry(3, &c), ("neg_tts_lm", 20));
    let prompt =
        VibeVoicePrompt::load(branch(3, 4), branch(5, 20), branch(1, 4), branch(1, 20), &c).unwrap();
    assert_eq!(prompt.total_tokens(), 10);
    assert_eq!(prompt.tts_lm.layers.len(), 20);
    assert_eq!(prompt.tts_lm.layers[19].tokens, 5);
    assert_eq!(prompt.lm.last_hidden_state.len(), 3 * 896);
}

#[test]
fn layers_of_a_prompt_keep_their_order() {
    let mut tensors = branch(1, 3);
    for i in 0..3 {
        tensors.layers[i].0.bits[0] = i as u16;
        tensors.layers[i].1.bits[0] = 10 + i as u16;
    }
    let loaded = load_branch("lm", tensors, &config()).unwrap();
    for i in 0..3 {
        assert_eq!(loaded.layers[i].key[0], i as u16);
        assert_eq!(loaded.layers[i].value[0], 10 + i as u16);
    }
}

#[test]
fn shapes_of_a_prompt_are_checked() {
    let c = config();
    let mut bad = branch(2, 1);
    bad.hidden.shape = vec![1, 2, 895];
    assert_eq!(
        load_branch("lm", bad, &c).unwrap_err(),
        "lm.last_hidden_state has shape [1, 2, 895], expected [1, tokens, 896]"
    );
    let mut empty = branch(2, 1);
    empty.hidden.shape = vec![1, 0, 896];
    assert_eq!(load_branch("lm", empty, &c).unwrap_err(), "lm prompt is empty");
    let mut key = branch(2, 2);
    key.layers[1].0.shape = vec![1, 2, 3, 64];
    assert_eq!(
        load_branch("tts_lm", key, &c).unwrap_err(),
        "tts_lm.key.1 has shape [1, 2, 3, 64], expected [1, 2, 2, 64]"
    );
    let mut value = branch(2, 2);
    value.layers[0].1.shape = vec![2, 2, 2, 64];
    assert_eq!(
        load_branch("tts_lm", value, &c).unwrap_err(),
        "tts_lm.value.0 has shape [2, 2, 2, 64], expected [1, 2, 2, 64]"
    );
}

#[test]
fn stacks_share_the_decoder_geometry() {
    let c = config();
    let t = transformer_config(&c, 4);
    assert_eq!(t.num_hidden_layers, 4);
    assert_eq!(t.head_dim, 64);
    assert_eq!(t.num_code_groups, 2);
    assert_eq!(t.code_predictor_config.vocab_size, 1);
    let mut loader = Loader::new();
    let stacks = VibeVoiceBackbones::load(&mut loader, &c);
    assert_eq!(stacks.text.layer_count(), 4);
    assert_eq!(stacks.tts.layer_count(), 20);
    let specs = loader.requirements();
    assert_eq!(specs.last().unwrap().name, "model.tts_language_model.norm.weight");
    assert!(specs[0].name.starts_with("model.language_model.layers.0."));
    let first = stacks.tts.layers[0].input_norm;
    assert_eq!(specs[first].name, "model.tts_language_model.layers.0.input_layernorm.weight");
    let last = stacks.tts.layers[19].down_proj;
    assert_eq!(specs[last].name, "model.tts_language_model.layers.19.mlp.down_proj.weight");
}

#[test]
fn scaling_is_checked_by_its_bits() {
    assert!(check_scaling(0.5f32.to_bits(), (-0.25f32).to_bits()).is_ok());
    assert!(check_scaling((-2.0f32).to_bits(), 0).is_ok());
    for (scaling, bias) in [
        (0.0f32, 0.0f32),
        (f32::EPSILON, 0.0),
        (f32::INFINITY, 0.0),
        (f32::NAN, 0.0),
        (1.0, f32::NEG_INFINITY),
    ] {
        assert_eq!(
            check_scaling(scaling.to_bits(), bias.to_bits()).unwrap_err(),
            "invalid VibeVoice speech scaling"
        );
    }
}

#[test]
fn text_is_embedded_and_marked() {
    let c = config();
    let mut loader = Loader::new();
    let weights = VibeVoiceGenerationWeights::load(&mut loader, &c);
    let specs = loader.requirements();
    assert_eq!(specs.len(), 13);
    assert_eq!(
        specs[1].check(&[2, 895]).unwrap_err(),
        "model.tts_input_types.weight has shape [2, 895]"
    );
    assert_eq!(
        specs[11].check(&[1]).unwrap_err(),
        "model.speech_scaling_factor is not a scalar"
    );
    let mut plan = loader.into_plan();
    assert_eq!(
        weights.embed_text(&mut plan, &[]).unwrap_err(),
        "VibeVoice text token window is empty"
    );
    assert_eq!(
        weights.embed_text(&mut plan, &[1, 151936, 9999999]).unwrap_err(),
        "VibeVoice token 151936 is out of range"
    );
    let rows = weights.embed_text(&mut plan, &[5, 6]).unwrap();
    assert_eq!(plan.size(rows), 2 * 896);
    weights.add_text_type(&mut plan, rows).unwrap();
    weights.add_speech_type(&mut plan, rows).unwrap();
    let odd = plan.given(897);
    assert_eq!(
        weights.add_text_type(&mut plan, odd).unwrap_err(),
        "VibeVoice typed hidden-state size mismatch"
    );
    let offsets: Vec<Scalar> = plan
        .step_list()
        .iter()
        .filter_map(|step| match step {
            Step::Run(op) if op.kernel == Kernel::CopyFrom => Some(op.scalars[1]),
            _ => None,
        })
        .collect();
    assert_eq!(offsets, vec![Scalar::Size(0), Scalar::Size(896)]);
}

#[test]
fn latents_and_ends_are_checked() {
    let mut loader = Loader::new();
    let weights = VibeVoiceGenerationWeights::load(&mut loader, &config());
    let mut plan = loader.into_plan();
    let latent = plan.given(64);
    let row = weights.connect_latent(&mut plan, latent).unwrap();
    assert_eq!(plan.size(row), 896);
    let logit = weights.eos_probability(&mut plan, row).unwrap();
    assert_eq!(plan.size(logit), 1);
    assert_eq!(
        weights.connect_latent(&mut plan, row).unwrap_err(),
        "VibeVoice latent size mismatch"
    );
    assert_eq!(
        weights.eos_probability(&mut plan, latent).unwrap_err(),
        "VibeVoice EOS hidden size mismatch"
    );
}

#[test]
fn velocities_are_predicted_for_both_conditions() {
    let mut loader = Loader::new();
    let head = VibeVoiceDiffusionHead::load(&mut loader, &config(), 2688);
    assert_eq!(loader.count(), 4 * 5 + 6);
    assert_eq!(
        loader.requirements()[1].name,
        "model.prediction_head.layers.0.adaLN_modulation.1.weight"
    );
    let mut plan = loader.into_plan();
    let noisy = plan.given(64);
    let time = plan.given(256);
    let positive = plan.given(896);
    let negative = plan.given(896);
    let out = head.forward(&mut plan, noisy, time, positive).unwrap();
    assert_eq!(plan.size(out), 64);
    let before = plan.step_list().len();
    let (a, b) = head
        .forward_cfg(&mut plan, noisy, time, positive, negative)
        .unwrap();
    assert_eq!(plan.size(a), 64);
    assert_eq!(plan.size(b), 64);
    let kernels: Vec<Kernel> = plan.step_list()[before..]
        .iter()
        .filter_map(|step| match step {
            Step::Run(op) => Some(op.kernel),
            _ => None,
        })
        .collect();
    assert!(kernels.contains(&Kernel::MatmulBf16));
    assert!(!kernels.contains(&Kernel::GemvBf16));
    assert_eq!(
        head.forward_cfg(&mut plan, positive, time, positive, negative)
            .unwrap_err(),
        "VibeVoice CFG noisy latent geometry disagrees"
    );
    assert_eq!(
        head.forward(&mut plan, positive, time, positive).unwrap_err(),
        "VibeVoice noisy latent has 896 values, expected 64"
    );
    assert_eq!(
        head.forward(&mut plan, noisy, time, noisy).unwrap_err(),
        "VibeVoice diffusion condition has 64 values, expected 896"
    );
}

fn decoder_tensors() -> Vec<TensorInfo> {
    let root = "model.acoustic_tokenizer.decoder";
    let mut list = vec![
        info(&format!("{root}.upsample_layers.0.0.conv.conv.weight"), &[2048, 64, 7]),
        info(&format!("{root}.upsample_layers.0.0.conv.conv.bias"), &[2048]),
        info(&format!("{root}.head.conv.conv.weight"), &[1, 32, 7]),
        info(&format!("{root}.head.conv.conv.bias"), &[1]),
    ];
    let ratios = [8, 5, 5, 4, 2, 2];
    for stage in 0..7usize {
        let c = 2048usize >> stage;
        if stage > 0 {
            let p = format!("{root}.upsample_layers.{stage}.0.convtr.convtr");
            list.push(info(&format!("{p}.weight"), &[2 * c, c, 2 * ratios[stage - 1]]));
            list.push(info(&format!("{p}.bias"), &[c]));
        }
        for block in 0..if stage == 0 { 8 } else { 3 } {
            let p = format!("{root}.stages.{stage}.{block}");
            list.push(info(&format!("{p}.ffn.linear1.weight"), &[4 * c, c]));
            list.push(info(&format!("{p}.ffn.linear2.weight"), &[c, 4 * c]));
            list.push(info(&format!("{p}.norm.weight"), &[c]));
            list.push(info(&format!("{p}.mixer.conv.conv.conv.weight"), &[c, 1, 7]));
            list.push(info(&format!("{p}.mixer.conv.conv.conv.bias"), &[c]));
            list.push(info(&format!("{p}.gamma"), &[c]));
            list.push(info(&format!("{p}.ffn_norm.weight"), &[c]));
            list.push(info(&format!("{p}.ffn.linear1.bias"), &[4 * c]));
            list.push(info(&format!("{p}.ffn.linear2.bias"), &[c]));
            list.push(info(&format!("{p}.ffn_gamma"), &[c]));
        }
    }
    list
}

fn decoder_reason(name: &str, shape: &[usize]) -> String {
    let mut list = decoder_tensors();
    for tensor in list.iter_mut() {
        if tensor.name.ends_with(name) {
            tensor.shape = shape.to_vec();
        }
    }
    VibeVoiceAcousticDecoder::load(&mut Plan::new(), &list, &config()).unwrap_err()
}

#[test]
fn latents_become_samples() {
    let mut plan = Plan::new();
    let decoder =
        VibeVoiceAcousticDecoder::load(&mut plan, &decoder_tensors(), &config()).unwrap();
    assert_eq!(decoder.stages.len(), 7);
    assert_eq!(decoder.stages[0].blocks.len(), 8);
    assert_eq!(decoder.stages[3].blocks[2].mixer.groups, 256);
    assert_eq!(decoder.stem.groups, 1);
    assert_eq!(decoder.names.len(), 2 + 6 * 2 + (8 + 6 * 3) * 10 + 2);
    let block = &decoder.stages[3].blocks[2];
    assert_eq!(
        decoder.names[block.ffn_down - decoder.first],
        "model.acoustic_tokenizer.decoder.stages.3.2.ffn.linear2.weight"
    );
    assert_eq!(
        decoder.names[block.mixer.bias - decoder.first],
        "model.acoustic_tokenizer.decoder.stages.3.2.mixer.conv.conv.conv.bias"
    );
    let samples = decoder.decode(&mut plan, &[1.5f32.to_bits(); 128]).unwrap();
    assert_eq!(plan.size(samples), 2 * 3200);
    assert_eq!(
        decoder.decode(&mut plan, &[f32::NAN.to_bits(); 128]).unwrap_err(),
        "VibeVoice decoder received a non-finite latent"
    );
    assert_eq!(
        decoder.decode(&mut plan, &[0; 65]).unwrap_err(),
        "VibeVoice decoder needs complete acoustic latent frames"
    );
}

#[test]
fn a_mixer_of_the_wrong_width_is_refused() {
    let mut list = decoder_tensors();
    for tensor in list.iter_mut() {
        if tensor.name.ends_with("stages.2.1.mixer.conv.conv.conv.weight") {
            tensor.shape = vec![512, 3, 7];
        }
    }
    let mut plan = Plan::new();
    let decoder = VibeVoiceAcousticDecoder::load(&mut plan, &list, &config()).unwrap();
    assert_eq!(
        decoder.decode(&mut plan, &[0; 64]).unwrap_err(),
        "VibeVoice convolution input size mismatch"
    );
}

#[test]
fn weights_of_the_decoder_are_checked() {
    let root = "model.acoustic_tokenizer.decoder";
    assert_eq!(
        decoder_reason("0.0.conv.conv.weight", &[2048, 63, 7]),
        "unexpected VibeVoice decoder stem geometry"
    );
    assert_eq!(
        decoder_reason("0.0.conv.conv.weight", &[2048, 64]),
        format!("{root}.upsample_layers.0.0.conv.conv.weight is not Conv1d")
    );
    assert_eq!(
        decoder_reason("0.0.conv.conv.bias", &[2047]),
        format!("{root}.upsample_layers.0.0.conv.conv.bias has shape [2047]")
    );
    assert_eq!(
        decoder_reason("upsample_layers.2.0.convtr.convtr.weight", &[1024, 512, 11]),
        format!("{root}.upsample_layers.2.0.convtr.convtr.weight has unexpected kernel")
    );
    assert_eq!(
        decoder_reason("upsample_layers.2.0.convtr.convtr.weight", &[1023, 512, 10]),
        format!("{root}.upsample_layers.2.0.convtr.convtr has unexpected channels")
    );
    assert_eq!(
        decoder_reason("upsample_layers.2.0.convtr.convtr.weight", &[1024]),
        format!("{root}.upsample_layers.2.0.convtr.convtr.weight is not ConvTranspose1d")
    );
    assert_eq!(
        decoder_reason("stages.1.2.ffn.linear2.weight", &[1024, 1024]),
        format!("{root}.stages.1.2 FFN geometry is invalid")
    );
    assert_eq!(
        decoder_reason("head.conv.conv.weight", &[1, 31, 7]),
        "unexpected VibeVoice decoder head geometry"
    );
    let mut missing = decoder_tensors();
    missing.retain(|tensor| !tensor.name.ends_with("stages.6.2.ffn_gamma"));
    assert_eq!(
        VibeVoiceAcousticDecoder::load(&mut Plan::new(), &missing, &config()).unwrap_err(),
        format!("tensor not found: {root}.stages.6.2.ffn_gamma")
    );
    missing.retain(|tensor| !tensor.name.ends_with("0.0.conv.conv.weight"));
    assert_eq!(
        VibeVoiceAcousticDecoder::load(&mut Plan::new(), &missing, &config()).unwrap_err(),
        format!("could not load {root}.upsample_layers.0.0.conv.conv.weight")
    );
    let mut five = config();
    five.acoustic_tokenizer_config.decoder_ratios.pop();
    assert_eq!(
        VibeVoiceAcousticDecoder::load(&mut Plan::new(), &decoder_tensors(), &five).unwrap_err(),
        "VibeVoice decoder expects six upsampling ratios"
    );
}
