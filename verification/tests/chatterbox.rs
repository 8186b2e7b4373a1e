use chew_tts::catalog::TensorInfo;
use chew_tts::chatterbox::flow::ChatterboxFlowTransformerBlock;
use chew_tts::chatterbox::frontend::{assemble_prefix, ChatterboxT3Frontend};
use chew_tts::chatterbox::hift::{
    conv_output_len, frames_for_stage, reflect_index, ChatterboxF0Predictor, ChatterboxHiFT,
    GaussianRng, HiFTResBlock,
};
use chew_tts::chatterbox::inspect::{
    choose_s3gen, inspect_model, load_conditioning, narrow_tokens, validate_s3gen_names,
    validate_t3, validate_voice_encoder, S3GenFile,
};
use chew_tts::chatterbox::s3gen::{
    in_vocabulary, relative_positions, ChatterboxS3ConformerLayer, ChatterboxS3Encoder,
};
use chew_tts::chatterbox::t3::{
    ChatterboxT3BatchScratch, ChatterboxT3KvCache, ChatterboxT3Layer, ChatterboxT3Transformer,
};
use chew_tts::chatterbox::tokenizer::{
    check_vocabulary, frame_tokens, is_supported, normalize_multilingual_text, prepare, tag_text,
    ChatterboxTokenizer,
};
use chew_tts::device::kernels::Kernel;
use chew_tts::device::{Plan, Step};
use chew_tts::weights::Loader;

fn launches(plan: &Plan, kernel: Kernel) -> usize {
    plan.step_list()
        .iter()
        .filter(|step| matches!(step, Step::Run(op) if op.kernel == kernel))
        .count()
}

fn info(name: &str, shape: &[usize]) -> TensorInfo {
    TensorInfo { name: name.to_string(), shape: shape.to_vec(), bytes: 2 }
}

#[test]
fn normalizes_multilingual_punctuation() {
    assert_eq!(
        normalize_multilingual_text("  Hallo   Welt…  ").unwrap(),
        "Hallo Welt,"
    );
    assert_eq!(
        normalize_multilingual_text("Guten Abend").unwrap(),
        "Guten Abend."
    );
}

#[test]
fn rejects_empty_text() {
    assert!(normalize_multilingual_text(" \n ").is_err());
}

#[test]
fn typographic_marks_become_plain() {
    assert_eq!(
        normalize_multilingual_text("“So—what?” he said: ‘no’; yes – or... no !").unwrap(),
        "\"So-what?\" he said, 'no',  yes - or,  no !"
    );
    assert_eq!(normalize_multilingual_text("a - b").unwrap(), "a, b.");
    assert_eq!(normalize_multilingual_text("...").unwrap(), ",");
    assert_eq!(
        normalize_multilingual_text("").unwrap_err(),
        "Chatterbox text must not be empty"
    );
}

#[test]
fn languages_are_known_by_their_codes() {
    for code in [
        "ar", "da", "de", "el", "en", "es", "fi", "fr", "he", "hi", "it", "ja", "ko", "ms", "nl",
        "no", "pl", "pt", "ru", "sv", "sw", "tr", "zh",
    ] {
        assert!(is_supported(code));
    }
    assert!(!is_supported("EN"));
    assert!(!is_supported("xx"));
    assert!(!is_supported(""));
}

#[test]
fn requests_are_lowered_decomposed_and_tagged() {
    assert_eq!(prepare("É ﬁn", " FR ").unwrap(), "[fr]e\u{301}[SPACE]fin.");
    assert_eq!(
        prepare("hello", "x\"y").unwrap_err(),
        "unsupported Chatterbox language \"x\\\"y\""
    );
    assert_eq!(
        prepare("", "en").unwrap_err(),
        "Chatterbox text must not be empty"
    );
    assert_eq!(prepare("", "qq").unwrap_err(), "unsupported Chatterbox language \"qq\"");
    assert_eq!(tag_text("de", "a b  c"), "[de]a[SPACE]b[SPACE][SPACE]c");
}

#[test]
fn token_numbers_are_framed() {
    assert_eq!(frame_tokens(&vec![7, 4_294_967_295]).unwrap(), vec![255, 7, -1, 0]);
    assert_eq!(frame_tokens(&vec![]).unwrap(), vec![255, 0]);
    assert_eq!(frame_tokens(&vec![1; 2048]).unwrap().len(), 2050);
    assert_eq!(
        frame_tokens(&vec![1; 2049]).unwrap_err(),
        "Chatterbox text requires 2051 tokens, model limit is 2050"
    );
}

#[test]
fn control_tokens_are_checked() {
    assert!(check_vocabulary(Some(0), Some(255), Some(2)).is_ok());
    assert_eq!(
        check_vocabulary(Some(1), Some(255), Some(2)).unwrap_err(),
        "Chatterbox tokenizer [STOP] has an unexpected ID"
    );
    assert_eq!(
        check_vocabulary(Some(0), None, Some(2)).unwrap_err(),
        "Chatterbox tokenizer [START] has an unexpected ID"
    );
    assert_eq!(
        check_vocabulary(Some(0), Some(255), Some(3)).unwrap_err(),
        "Chatterbox tokenizer [SPACE] has an unexpected ID"
    );
}

fn tokenizer_file(space: u32) -> String {
    let added = |id: u32, content: &str| {
        format!(
            "{{\"id\":{id},\"content\":\"{content}\",\"single_word\":false,\"lstrip\":false,\
             \"rstrip\":false,\"normalized\":false,\"special\":true}}"
        )
    };
    format!(
        "{{\"version\":\"1.0\",\"truncation\":null,\"padding\":null,\"added_tokens\":[{},{},{},{}],\
         \"normalizer\":null,\"pre_tokenizer\":null,\"post_processor\":null,\"decoder\":null,\
         \"model\":{{\"type\":\"BPE\",\"dropout\":null,\"unk_token\":\"[UNK]\",\
         \"continuing_subword_prefix\":null,\"end_of_word_suffix\":null,\"fuse_unk\":false,\
         \"byte_fallback\":false,\"vocab\":{{\"[STOP]\":0,\"[UNK]\":1,\"[SPACE]\":{space},\
         \"a\":30,\"e\":31,\"\u{301}\":32,\".\":33,\"[START]\":255,\"[fr]\":256}},\"merges\":[]}}}}",
        added(0, "[STOP]"),
        added(space, "[SPACE]"),
        added(255, "[START]"),
        added(256, "[fr]"),
    )
}

#[test]
fn texts_are_encoded() {
    let tokenizer = ChatterboxTokenizer::load(tokenizer_file(2).as_bytes()).unwrap();
    assert_eq!(
        tokenizer.encode("É A", "fr").unwrap(),
        vec![255, 256, 31, 32, 2, 30, 33, 0]
    );
    assert_eq!(
        tokenizer.encode("É A", "qq").unwrap_err(),
        "unsupported Chatterbox language \"qq\""
    );
    assert_eq!(
        tokenizer.encode(&"a".repeat(2048), "fr").unwrap_err(),
        "Chatterbox text requires 2052 tokens, model limit is 2050"
    );
}

#[test]
fn tokenizers_are_checked() {
    assert_eq!(
        ChatterboxTokenizer::load(tokenizer_file(5).as_bytes()).err().unwrap(),
        "Chatterbox tokenizer [SPACE] has an unexpected ID"
    );
    assert_eq!(ChatterboxTokenizer::load(b"{").err().unwrap(), "not a JSON text");
    assert!(ChatterboxTokenizer::load(b"[]").is_err());
    assert!(ChatterboxTokenizer::try_load(b"[]").unwrap().is_err());
    assert!(ChatterboxTokenizer::try_load(b"{").unwrap().is_err());
    assert!(ChatterboxTokenizer::try_load(tokenizer_file(2).as_bytes()).unwrap().is_ok());
}

#[test]
fn merges_are_read() {
    let merged = tokenizer_file(2)
        .replace("\"merges\":[]", "\"merges\":[\"a e\"]")
        .replace("\"a\":30", "\"a\":30,\"ae\":40");
    let tokenizer = ChatterboxTokenizer::try_load(merged.as_bytes()).unwrap().unwrap();
    assert_eq!(tokenizer.encode("ae", "fr").unwrap(), vec![255, 256, 40, 33, 0]);
    let missing = tokenizer_file(2).replace("\"merges\":[]", "\"merges\":[[\"a\",\"e\"]]");
    assert!(ChatterboxTokenizer::try_load(missing.as_bytes()).unwrap().is_err());
    let long = tokenizer_file(2).replace(
        "\"merges\":[]",
        "\"merges\":[[\"a\",\"e\"],[\"[START]\",\"[SPACE]\"]]",
    );
    assert!(ChatterboxTokenizer::try_load(long.as_bytes()).is_none());
}

#[test]
fn unusable_descriptions_are_told_apart() {
    let with = |part: &str, value: &str| {
        tokenizer_file(2).replace(
            &format!("\"{part}\":null"),
            &format!("\"{part}\":{value}"),
        )
    };
    let truncated = |length: u32, stride: u32| {
        with(
            "truncation",
            &format!(
                "{{\"direction\":\"Right\",\"max_length\":{length},\
                 \"strategy\":\"LongestFirst\",\"stride\":{stride}}}"
            ),
        )
    };
    assert!(ChatterboxTokenizer::try_load(truncated(4, 4).as_bytes()).is_none());
    let short = ChatterboxTokenizer::try_load(truncated(4, 3).as_bytes()).unwrap().unwrap();
    assert_eq!(short.encode("É A", "fr").unwrap(), vec![255, 256, 31, 32, 2, 0]);
    let none = ChatterboxTokenizer::try_load(truncated(0, 7).as_bytes()).unwrap().unwrap();
    assert_eq!(none.encode("É A", "fr").unwrap(), vec![255, 0]);
    let listed = with("truncation", "[\"Right\",4,\"LongestFirst\",4]");
    assert!(ChatterboxTokenizer::try_load(listed.as_bytes()).is_none());
    let stripping = tokenizer_file(2).replace("\"rstrip\":false", "\"rstrip\":true");
    assert!(ChatterboxTokenizer::try_load(stripping.as_bytes()).is_none());
    let split = with("pre_tokenizer", "{\"type\":\"Whitespace\"}");
    assert!(ChatterboxTokenizer::try_load(split.as_bytes()).unwrap().is_ok());
    let pattern = with(
        "pre_tokenizer",
        "{\"type\":\"Split\",\"pattern\":{\"Regex\":\"a+\"},\"behavior\":\"Isolated\",\"invert\":false}",
    );
    assert!(ChatterboxTokenizer::try_load(pattern.as_bytes()).is_none());
    let lowered = with("normalizer", "{\"type\":\"Lowercase\"}");
    assert!(ChatterboxTokenizer::try_load(lowered.as_bytes()).unwrap().is_ok());
    let replaced = with(
        "normalizer",
        "{\"type\":\"Replace\",\"pattern\":{\"Regex\":\"a+\"},\"content\":\"b\"}",
    );
    assert!(ChatterboxTokenizer::try_load(replaced.as_bytes()).is_none());
    let wordy = tokenizer_file(2).replace(
        "\"continuing_subword_prefix\":null",
        "\"continuing_subword_prefix\":\"##\"",
    );
    assert!(ChatterboxTokenizer::try_load(wordy.as_bytes()).is_none());
}

fn t3_tensors() -> Vec<TensorInfo> {
    vec![
        info("text_emb.weight", &[2454, 1024]),
        info("speech_emb.weight", &[8194, 1024]),
        info("text_head.weight", &[2454, 1024]),
        info("speech_head.weight", &[8194, 1024]),
        info("text_pos_emb.emb.weight", &[2050, 1024]),
        info("speech_pos_emb.emb.weight", &[4100, 1024]),
        info("cond_enc.spkr_enc.weight", &[1024, 256]),
        info("tfmr.layers.0.self_attn.q_proj.weight", &[1024, 1024]),
        info("tfmr.layers.29.self_attn.q_proj.weight", &[1024, 1024]),
    ]
}

fn s3gen_names() -> Vec<String> {
    vec![
        "flow.input_embedding.weight".to_string(),
        "flow.decoder.estimator.down_blocks.0.0.block1.block.0.weight".to_string(),
        "mel2wav.conv_pre.parametrizations.weight.original1".to_string(),
    ]
}

#[test]
fn the_language_model_is_inspected() {
    assert!(validate_t3(&t3_tensors()).is_ok());
    for i in 0..9 {
        let mut tensors = t3_tensors();
        tensors.remove(i);
        assert!(validate_t3(&tensors).is_err());
        let mut tensors = t3_tensors();
        tensors[i].shape = vec![3];
        assert!(validate_t3(&tensors).is_err());
    }
}

#[test]
fn the_synthesiser_is_inspected() {
    assert!(validate_s3gen_names(&s3gen_names()).is_ok());
    let mut names = s3gen_names();
    names.remove(2);
    assert_eq!(
        validate_s3gen_names(&names).unwrap_err(),
        "Chatterbox S3Gen is missing mel2wav.conv_pre.parametrizations.weight.original1"
    );
    assert!(matches!(choose_s3gen(true, true, true), Ok(S3GenFile::SafetensorsV3)));
    assert!(matches!(choose_s3gen(false, true, true), Ok(S3GenFile::Safetensors)));
    assert!(matches!(choose_s3gen(false, false, true), Ok(S3GenFile::Pickle)));
    assert_eq!(
        choose_s3gen(false, false, false).err().unwrap(),
        "missing s3gen_v3.safetensors, s3gen.safetensors, or s3gen.pt"
    );
}

#[test]
fn the_voice_encoder_is_inspected() {
    assert!(validate_voice_encoder(16, Some(&[256, 256])).is_ok());
    assert_eq!(
        validate_voice_encoder(15, Some(&[256, 256])).unwrap_err(),
        "Chatterbox voice encoder has 15 tensors, expected 16"
    );
    assert_eq!(
        validate_voice_encoder(16, None).unwrap_err(),
        "Chatterbox voice encoder is missing proj.weight"
    );
    assert_eq!(
        validate_voice_encoder(16, Some(&[256, 40])).unwrap_err(),
        "Chatterbox voice encoder projection has shape [256, 40], expected [256, 256]"
    );
}

#[test]
fn models_are_summarised() {
    let inspect = |emotion: f32, input: f32, encoder: usize| {
        inspect_model(
            "t3".to_string(),
            "s3gen".to_string(),
            "ve".to_string(),
            t3_tensors(),
            &[emotion.to_bits()],
            &s3gen_names(),
            &[0, input.to_bits()],
            100,
            encoder,
            Some(&[256, 256]),
            20,
        )
    };
    let found = inspect(1.0, -1.0, 16).unwrap();
    assert_eq!(found.total_weight_bytes, 18 + 100 + 20);
    assert_eq!(found.t3_path, "t3");
    assert_eq!(found.s3gen_path, "s3gen");
    assert_eq!(found.voice_encoder_path, "ve");
    assert_eq!(found.s3gen_tensor_count, 3);
    assert_eq!(found.voice_encoder_tensor_count, 16);
    assert_eq!(found.t3_tensors.len(), 9);
    assert_eq!(
        inspect(f32::NAN, 1.0, 16).err().unwrap(),
        "Chatterbox V3 emotion conditioning contains non-finite weights"
    );
    assert_eq!(
        inspect(1.0, f32::NEG_INFINITY, 16).err().unwrap(),
        "Chatterbox S3Gen input embedding contains non-finite weights"
    );
    assert_eq!(
        inspect(1.0, 1.0, 0).err().unwrap(),
        "Chatterbox voice encoder has 0 tensors, expected 16"
    );
}

#[test]
fn conditioning_is_required_and_narrowed() {
    let mut loader = Loader::new();
    load_conditioning(&mut loader);
    assert_eq!(loader.count(), 6);
    assert_eq!(loader.requirements()[4].shape, vec![1, 314, 80]);
    assert_eq!(
        loader.check(&[]).unwrap_err(),
        "conditioning tensor speaker_emb is missing"
    );
    assert_eq!(narrow_tokens(&[1, -5, 2_147_483_647]).unwrap(), vec![1, -5, 2_147_483_647]);
    assert_eq!(
        narrow_tokens(&[2_147_483_648]).unwrap_err(),
        "conditioning token exceeds i32"
    );
}

#[test]
fn convolutions_have_exact_lengths() {
    assert_eq!(conv_output_len(10, 3, 1, 1, 1), 10);
    assert_eq!(conv_output_len(10, 4, 2, 1, 1), 5);
    assert_eq!(conv_output_len(10, 3, 1, 5, 5), 10);
    assert_eq!(conv_output_len(2401, 30, 15, 7, 1), 160);
}

#[test]
fn stages_multiply_the_frames() {
    assert_eq!(frames_for_stage(10, 0), 10);
    assert_eq!(frames_for_stage(10, 1), 80);
    assert_eq!(frames_for_stage(10, 2), 400);
    assert_eq!(frames_for_stage(10, 3), 1200);
}

#[test]
fn borders_are_mirrored() {
    let read: Vec<usize> = (-3..8).map(|i| reflect_index(i, 5)).collect();
    assert_eq!(read, vec![3, 2, 1, 0, 1, 2, 3, 4, 3, 2, 1]);
}

#[test]
fn the_excitation_sequence_never_stops() {
    assert_eq!(GaussianRng::new(0).state, 1);
    let mut rng = GaussianRng::new(1);
    let bits = rng.draw();
    assert_eq!(rng.state, 0x4082_2041);
    assert_eq!(bits, 0);
    for _ in 0..100 {
        assert!(rng.draw() < 1 << 24);
        assert!(rng.state != 0);
    }
}

#[test]
fn vocoder_blocks_are_loaded() {
    let mut loader = Loader::new();
    let block = HiFTResBlock::load(&mut loader, "mel2wav.resblocks.0", 256, 3);
    assert_eq!(loader.count(), 24);
    assert_eq!((block.first, block.channels, block.kernel), (0, 256, 3));
    let specs = loader.requirements();
    let listed = [info(&specs[0].name, &[256]), info(&specs[1].name, &[1])];
    assert_eq!(
        loader.check(&listed).unwrap_err(),
        format!("could not load {}", specs[2].name)
    );
}

#[test]
fn pitch_is_predicted_per_frame() {
    let mut loader = Loader::new();
    let model = ChatterboxF0Predictor::load(&mut loader);
    assert_eq!(loader.count(), 17);
    let mut plan = loader.into_plan();
    let out = model.predict(&mut plan, 4 * 80, 4).unwrap();
    assert_eq!(plan.size(out), 4);
    assert_eq!(
        model.predict(&mut plan, 4 * 80, 0).unwrap_err(),
        "F0 input must not be empty"
    );
    assert_eq!(
        model.predict(&mut plan, 3 * 80, 4).unwrap_err(),
        "F0 input has 240 values, expected 320"
    );
}

#[test]
fn mels_become_spectra() {
    let mut loader = Loader::new();
    let model = ChatterboxHiFT::load(&mut loader);
    assert_eq!(loader.count(), 328);
    let mut plan = loader.into_plan();
    let out = model.synthesize(&mut plan, 160, 2, 18 * 241).unwrap();
    assert_eq!(plan.size(out), 18 * 241);
    assert_eq!(
        model.synthesize(&mut plan, 161, 2, 18 * 241).unwrap_err(),
        "invalid HiFT mel geometry"
    );
    assert_eq!(
        model.synthesize(&mut plan, 160, 2, 18 * 240).unwrap_err(),
        "unexpected source STFT geometry"
    );
}

#[test]
fn flow_blocks_keep_their_shape() {
    let mut loader = Loader::new();
    let block = ChatterboxFlowTransformerBlock::load(&mut loader, "flow.block");
    assert_eq!(
        loader.check(&[]).unwrap_err(),
        "could not load Chatterbox flow flow.block.norm1.weight"
    );
    let mut plan = loader.into_plan();
    let out = block.forward(&mut plan, 256 * 3, 3).unwrap();
    assert_eq!(plan.size(out), 256 * 3);
    let steps = plan.step_list().len();
    assert_eq!(
        block.forward(&mut plan, 256 * 3, 4).unwrap_err(),
        "invalid flow block input"
    );
    assert_eq!(plan.step_list().len(), steps);
}

#[test]
fn distances_fall_from_the_front() {
    assert_eq!(relative_positions(3), vec![2, 1, 0, -1, -2]);
    assert_eq!(relative_positions(1), vec![0]);
    assert!(in_vocabulary(&[0, 6560], 6561));
    assert!(!in_vocabulary(&[0, 6561], 6561));
    assert!(!in_vocabulary(&[-1], 6561));
}

#[test]
fn conformer_layers_are_numbered() {
    let mut loader = Loader::new();
    assert_eq!(
        ChatterboxS3ConformerLayer::load(&mut loader, false, 6).unwrap_err(),
        "S3Gen Conformer layer 6 is outside 0..6"
    );
    assert_eq!(
        ChatterboxS3ConformerLayer::load(&mut loader, true, 4).unwrap_err(),
        "S3Gen Conformer layer 4 is outside 0..4"
    );
    assert_eq!(loader.count(), 0);
    let layer = ChatterboxS3ConformerLayer::load(&mut loader, true, 3).unwrap();
    assert_eq!(loader.count(), 19);
    let mut plan = loader.into_plan();
    let positions = plan.given(512 * 5);
    let out = layer.forward(&mut plan, 512 * 3, positions, 3).unwrap();
    assert_eq!(plan.size(out), 512 * 3);
    assert_eq!(
        layer.forward(&mut plan, 512, positions, 0).unwrap_err(),
        "S3Gen sequence must be non-empty"
    );
    assert_eq!(
        layer.forward(&mut plan, 512, positions, 3).unwrap_err(),
        "S3Gen input has 512 values, expected 1536"
    );
}

#[test]
fn speech_tokens_are_doubled_into_mels() {
    let mut loader = Loader::new();
    let model = ChatterboxS3Encoder::load(&mut loader);
    assert_eq!(loader.count(), 209);
    let mut plan = loader.into_plan();
    let positions = plan.given(512 * 5);
    let up_positions = plan.given(512 * 11);
    let out = model.encode(&mut plan, &[1, 2, 6560], positions, up_positions).unwrap();
    assert_eq!(plan.size(out), 80 * 6);
    assert_eq!(
        model.encode(&mut plan, &[], positions, up_positions).unwrap_err(),
        "S3Gen token sequence is empty"
    );
    assert_eq!(
        model.encode(&mut plan, &[6561], positions, up_positions).unwrap_err(),
        "S3Gen token is outside vocabulary"
    );
}

#[test]
fn prefixes_hold_condition_text_and_start() {
    let mut loader = Loader::new();
    let model = ChatterboxT3Frontend::load(&mut loader);
    assert_eq!(
        loader.check(&[]).unwrap_err(),
        "could not load Chatterbox T3 text_emb.weight"
    );
    let mut plan = loader.into_plan();
    let rows = model.build_prefix(&mut plan, &[255, 9, 0], 256, &[1; 150]).unwrap();
    assert_eq!(plan.size(rows.text), 3 * 1024);
    assert_eq!(plan.size(rows.bos), 1024);
    assert_eq!(
        model.build_prefix(&mut plan, &[], 256, &[1; 150]).err().unwrap(),
        "Chatterbox text tokens are empty"
    );
    assert_eq!(
        model.build_prefix(&mut plan, &[1; 2051], 256, &[1; 150]).err().unwrap(),
        "Chatterbox text token limit exceeded"
    );
    assert_eq!(
        model.build_prefix(&mut plan, &[2454], 256, &[1; 150]).err().unwrap(),
        "embedding token is outside vocabulary"
    );
    assert!(model.build_prefix(&mut plan, &[1], 255, &[1; 150]).is_err());
}

#[test]
fn prefixes_differ_only_in_the_text() {
    let condition = vec![1u16; 34 * 1024];
    let text = vec![2u16; 3 * 1024];
    let bos = vec![3u16; 1024];
    let prefix = assemble_prefix(&condition, &text, &bos, 0);
    assert_eq!(prefix.tokens, 39);
    assert_eq!(prefix.conditional.len(), 39 * 1024);
    for i in 0..39 * 1024 {
        if (34 * 1024..37 * 1024).contains(&i) {
            assert_eq!((prefix.conditional[i], prefix.unconditional[i]), (2, 0));
        } else {
            assert_eq!(prefix.conditional[i], prefix.unconditional[i]);
        }
    }
}

#[test]
fn speech_tokens_are_embedded_and_scored() {
    let mut loader = Loader::new();
    let model = ChatterboxT3Frontend::load(&mut loader);
    let mut plan = loader.into_plan();
    let row = model.speech_embedding(&mut plan, 8193, 4099).unwrap();
    assert_eq!(plan.size(row), 1024);
    assert_eq!(
        model.speech_embedding(&mut plan, 8194, 0).unwrap_err(),
        "embedding token is outside vocabulary"
    );
    assert_eq!(
        model.speech_embedding(&mut plan, 0, 4100).unwrap_err(),
        "position embedding limit exceeded"
    );
    let logits = model.speech_logits(&mut plan, 1024).unwrap();
    assert_eq!(plan.size(logits), 8194);
    assert_eq!(
        model.speech_logits(&mut plan, 1000).unwrap_err(),
        "T3 logit input has 1000 values, expected 1024"
    );
    let pair = model.speech_logits_pair(&mut plan, 1024, 1024).unwrap();
    assert_eq!(plan.size(pair), 16388);
    assert_eq!(
        model.speech_logits_pair(&mut plan, 1024, 0).unwrap_err(),
        "paired T3 logits expect two hidden rows"
    );
}

#[test]
fn a_layer_steps_with_its_cache() {
    let mut loader = Loader::new();
    assert_eq!(
        ChatterboxT3Layer::load(&mut loader, 30).unwrap_err(),
        "Chatterbox T3 layer 30 is outside 0..30"
    );
    let layer = ChatterboxT3Layer::load(&mut loader, 29).unwrap();
    assert_eq!(loader.count(), 9);
    let mut plan = loader.into_plan();
    let factors = plan.given(32);
    let hidden = plan.given(2 * 1024);
    let mut cache = ChatterboxT3KvCache::allocate(&mut plan, 3).unwrap();
    let scratch = ChatterboxT3BatchScratch::allocate(&mut plan, 2).unwrap();
    layer.forward_cached_device(&mut plan, hidden, 2, factors, &mut cache, &scratch).unwrap();
    assert_eq!(cache.position, 2);
    let count = plan.step_list().len();
    assert!(layer
        .forward_cached_device(&mut plan, hidden, 2, factors, &mut cache, &scratch)
        .is_err());
    assert_eq!(cache.position, 2);
    assert_eq!(plan.step_list().len(), count);
    assert_eq!(
        ChatterboxT3KvCache::allocate(&mut plan, 0).unwrap_err(),
        "T3 KV capacity must be non-zero"
    );
    assert_eq!(
        ChatterboxT3BatchScratch::allocate(&mut plan, 0).unwrap_err(),
        "T3 scratch capacity must be non-zero"
    );
    let out = layer.forward_first_token(&mut plan, 1024).unwrap();
    assert_eq!(plan.size(out), 1024);
    assert!(layer.forward_first_token(&mut plan, 1023).is_err());
}

#[test]
fn a_session_counts_its_tokens() {
    let mut loader = Loader::new();
    let model = ChatterboxT3Transformer::load(&mut loader, 271);
    assert_eq!(loader.count(), 271);
    let mut plan = loader.into_plan();
    assert_eq!(plan.given(32), 271);
    let out = model.forward_first_token(&mut plan, 1024).unwrap();
    assert_eq!(plan.size(out), 1024);
    let mut session = model.start_session(&mut plan, 5, 4).unwrap();
    assert_eq!(session.position(), 0);
    let out = model.forward_session(&mut plan, &mut session, 4 * 1024, 4).unwrap();
    assert!(plan.size(out) >= 4 * 1024);
    assert_eq!(session.position(), 4);
    assert_eq!(
        model.forward_session(&mut plan, &mut session, 2 * 1024, 2).unwrap_err(),
        "T3 session length 6 exceeds maximum 5"
    );
    assert_eq!(
        model.forward_session(&mut plan, &mut session, 1024, 0).unwrap_err(),
        "T3 sequence length must be non-zero"
    );
    assert_eq!(
        model.forward_session(&mut plan, &mut session, 1024, 2).unwrap_err(),
        "T3 hidden input has 1024 values, expected 2048"
    );
    model.forward_session(&mut plan, &mut session, 1024, 1).unwrap();
    assert_eq!(session.position(), 5);
    session.reset();
    assert_eq!(session.position(), 0);
    assert_eq!(
        model.start_session(&mut plan, 0, 1).err().unwrap(),
        "T3 KV capacity must be non-zero"
    );
    assert!(launches(&plan, Kernel::RmsNormF32in) > 60);
}
