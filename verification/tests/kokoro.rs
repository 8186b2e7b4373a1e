use chew_tts::catalog::TensorInfo;
use chew_tts::device::kernels::Kernel;
use chew_tts::device::{Plan, Step};
use chew_tts::kokoro::adain::KokoroAdaInResBlock;
use chew_tts::kokoro::albert::KokoroAlbert;
use chew_tts::kokoro::checkpoint::{
    inspect_model, storage_sample, GroupTensor, KokoroCheckpoint,
};
use chew_tts::kokoro::config::{
    find_checkpoint, find_ending, is_little, AlbertConfig, IstftNetConfig, KokoroConfig, KokoroVoice,
};
use chew_tts::kokoro::decoder::KokoroDecoderFrontend;
use chew_tts::kokoro::f0::KokoroF0Noise;
use chew_tts::chatterbox::hift::reflect_index;
use chew_tts::kokoro::generator::{reflect, KokoroGenerator};
use chew_tts::kokoro::generator_res::KokoroGeneratorResBlock;
use chew_tts::kokoro::lstm::KokoroBiLstm;
use chew_tts::kokoro::prosody::{align, split_style, DurationRows, KokoroProsodyFrontend};
use chew_tts::kokoro::text::KokoroTextEncoder;
use chew_tts::kokoro::upsample::{gather_phase, ConvTranspose};
use chew_tts::weights::Loader;

fn config() -> KokoroConfig {
    KokoroConfig {
        istftnet: IstftNetConfig {
            upsample_kernel_sizes: vec![20, 12],
            upsample_rates: vec![10, 6],
            gen_istft_hop_size: 5,
            gen_istft_n_fft: 20,
            resblock_dilation_sizes: vec![vec![1], vec![1]],
            resblock_kernel_sizes: vec![3, 7],
            upsample_initial_channel: 512,
        },
        dim_in: 64,
        hidden_dim: 512,
        max_conv_dim: 512,
        max_dur: 50,
        multispeaker: true,
        n_layer: 3,
        n_mels: 80,
        n_token: 178,
        style_dim: 128,
        text_encoder_kernel_size: 5,
        plbert: AlbertConfig {
            hidden_size: 768,
            num_attention_heads: 12,
            intermediate_size: 2048,
            max_position_embeddings: 512,
            num_hidden_layers: 12,
        },
        vocab: vec![("a".to_string(), 2), ("ˈ".to_string(), 156)],
    }
}

fn launches(plan: &Plan, kernel: Kernel) -> usize {
    plan.step_list()
        .iter()
        .filter(|step| matches!(step, Step::Run(op) if op.kernel == kernel))
        .count()
}

#[test]
fn rejects_invalid_vocab_geometry() {
    let mut config = config();
    config.n_token = 2;
    config.vocab = vec![("a".to_string(), 2)];
    assert!(config.validate().is_err());
}

#[test]
fn each_rule_of_the_geometry_is_checked() {
    assert!(config().validate().is_ok());
    let mut c = config();
    c.n_token = 0;
    assert_eq!(c.validate().unwrap_err(), "Kokoro vocabulary must not be empty");
    let mut c = config();
    c.n_token = 100;
    assert_eq!(
        c.validate().unwrap_err(),
        "Kokoro vocabulary contains a token outside 0..100"
    );
    let mut c = config();
    c.plbert.num_attention_heads = 11;
    assert_eq!(
        c.validate().unwrap_err(),
        "Kokoro Albert hidden size must be divisible by its head count"
    );
    let mut c = config();
    c.plbert.max_position_embeddings = 1;
    assert_eq!(
        c.validate().unwrap_err(),
        "Kokoro context must hold boundary tokens"
    );
    let mut c = config();
    c.istftnet.upsample_rates.pop();
    assert_eq!(
        c.validate().unwrap_err(),
        "Kokoro iSTFTNet upsample rates and kernels differ in length"
    );
    let mut c = config();
    c.istftnet.resblock_kernel_sizes.pop();
    assert_eq!(
        c.validate().unwrap_err(),
        "Kokoro iSTFTNet residual kernels and dilation groups differ in length"
    );
}

#[test]
fn phonemes_become_tokens() {
    let tokens = config().tokenize_phonemes("aˈxa").unwrap();
    assert_eq!(tokens.ids, vec![0, 2, 156, 2, 0]);
    assert_eq!(tokens.phoneme_count, 3);
    assert_eq!(tokens.skipped_phonemes, 1);
    assert_eq!(
        config().tokenize_phonemes("xyz").unwrap_err(),
        "Kokoro phoneme sequence contains no known tokens"
    );
    let mut small = config();
    small.plbert.max_position_embeddings = 4;
    assert_eq!(
        small.tokenize_phonemes("aaa").unwrap_err(),
        "Kokoro phoneme sequence requires 5 tokens, model context is 4"
    );
    assert_eq!(small.tokenize_phonemes("aa").unwrap().ids, vec![0, 2, 2, 0]);
}

fn voice_bytes(values: usize) -> Vec<u8> {
    (0..values).flat_map(|i| (i as f32).to_le_bytes()).collect()
}

#[test]
fn voices_hold_one_style_per_length() {
    let bytes = voice_bytes(510 * 256);
    let voice = KokoroVoice::load(&bytes, &config()).unwrap();
    assert_eq!(voice.entries(), 510);
    assert_eq!(voice.style_width(), 256);
    let style = voice.style_for_phoneme_count(2).unwrap();
    assert_eq!(style.len(), 256);
    assert_eq!(style[0], 256.0f32.to_bits());
    assert_eq!(
        voice.style_for_phoneme_count(0).unwrap_err(),
        "Kokoro voice requires at least one phoneme"
    );
    assert_eq!(
        voice.style_for_phoneme_count(511).unwrap_err(),
        "Kokoro voice has no style for 511 phonemes"
    );
    let (decoder, predictor) = split_style(style);
    assert_eq!([decoder, predictor].concat(), style);
}

#[test]
fn voices_are_checked() {
    let c = config();
    assert_eq!(
        KokoroVoice::load(&[0; 7], &c).err().unwrap(),
        "Kokoro voice storage has a partial float32 value"
    );
    assert_eq!(
        KokoroVoice::load(&[0; 1028], &c).err().unwrap(),
        "Kokoro voice width does not match model style dimension 128"
    );
    assert_eq!(
        KokoroVoice::load(&[0; 2048], &c).err().unwrap(),
        "Kokoro voice contains 2 contexts, expected at least 510"
    );
    let mut bytes = voice_bytes(510 * 256);
    bytes[40..44].copy_from_slice(&f32::NAN.to_le_bytes());
    assert_eq!(
        KokoroVoice::load(&bytes, &c).err().unwrap(),
        "Kokoro voice contains non-finite style values"
    );
}

#[test]
fn files_are_found_by_name() {
    assert_eq!(
        find_checkpoint("m", (false, true, true)).unwrap(),
        "kokoro-v1_1-zh.pth"
    );
    assert_eq!(find_checkpoint("m", (true, true, true)).unwrap(), "kokoro-v1_0.pth");
    assert_eq!(find_checkpoint("m", (false, false, true)).unwrap(), "model.pth");
    assert_eq!(
        find_checkpoint("m", (false, false, false)).unwrap_err(),
        "no Kokoro checkpoint found in m; expected kokoro-v1_0.pth, kokoro-v1_1-zh.pth, or model.pth"
    );
    let names = vec!["x/data.pkl".to_string(), "x/data/0".to_string(), "y/data/0".to_string()];
    assert_eq!(find_ending(&names, "/data/0"), Some(1));
    assert_eq!(find_ending(&names, "/byteorder"), None);
    assert!(is_little(" little\n"));
    assert!(!is_little("big"));
}

fn group_tensor(group: &str, name: &str, shape: &[usize]) -> GroupTensor {
    GroupTensor {
        group: group.to_string(),
        name: name.to_string(),
        shape: shape.to_vec(),
        element_bytes: 4,
    }
}

fn group_tensors() -> Vec<GroupTensor> {
    (0..5)
        .rev()
        .map(|i| {
            let (group, name) = storage_sample(i);
            group_tensor(group, name, &[2, i])
        })
        .collect()
}

#[test]
fn checkpoints_are_listed_in_order() {
    let checkpoint = KokoroCheckpoint::open("k.pth".to_string(), group_tensors()).unwrap();
    assert_eq!(checkpoint.path(), "k.pth");
    let infos = checkpoint.tensor_infos();
    let names: Vec<&str> = infos.iter().map(|info| info.name.as_str()).collect();
    assert_eq!(
        names,
        vec![
            "bert.module.embeddings.LayerNorm.bias",
            "bert_encoder.module.bias",
            "decoder.module.generator.conv_post.bias",
            "predictor.module.duration_proj.linear_layer.bias",
            "text_encoder.module.embedding.weight",
        ]
    );
    assert_eq!(infos[2].bytes, 24);
    let inspection = inspect_model(config(), &checkpoint);
    assert_eq!(inspection.total_weight_bytes, (0 + 1 + 2 + 3 + 4) * 8);
    assert_eq!(inspection.checkpoint, "k.pth");
}

#[test]
fn groups_and_tensors_are_looked_up() {
    let mut tensors = group_tensors();
    tensors.retain(|tensor| tensor.group != "predictor");
    assert_eq!(
        KokoroCheckpoint::open(String::new(), tensors).err().unwrap(),
        "Kokoro checkpoint group \"predictor\" is empty"
    );
    let checkpoint = KokoroCheckpoint::open(String::new(), group_tensors()).unwrap();
    assert_eq!(checkpoint.find("bert", "module.embeddings.LayerNorm.bias").unwrap(), 4);
    assert_eq!(
        checkpoint.find("bart", "x").unwrap_err(),
        "unknown Kokoro checkpoint group \"bart\""
    );
    assert_eq!(
        checkpoint.find("bert", "x").unwrap_err(),
        "Kokoro tensor bert.x is missing"
    );
}

#[test]
fn a_recurrent_layer_steps_both_ways() {
    let mut loader = Loader::new();
    let layer = KokoroBiLstm::load(&mut loader, "predictor", "module.lstm", 640, 256);
    let specs = loader.requirements();
    assert_eq!(specs.len(), 8);
    assert_eq!(specs[4].name, "predictor.module.lstm.weight_ih_l0_reverse");
    assert_eq!(
        specs[1].check(&[1]).unwrap_err(),
        "invalid predictor.module.lstm.weight_hh_l0 shape [1]"
    );
    let mut plan = loader.into_plan();
    let input = plan.given(3 * 640);
    let out = layer.forward(&mut plan, input, 3).unwrap();
    assert_eq!(plan.size(out), 3 * 512);
    assert_eq!(launches(&plan, Kernel::LstmCellF16), 6);
    let steps: Vec<_> = plan
        .step_list()
        .iter()
        .filter_map(|step| match step {
            Step::Run(op) if op.kernel == Kernel::LstmCellF16 => Some(op.scalars[1]),
            _ => None,
        })
        .collect();
    assert_eq!(steps[0], steps[5]);
    assert_eq!(
        layer.forward(&mut plan, input, 2).unwrap_err(),
        "invalid Kokoro BiLSTM input geometry"
    );
}

#[test]
fn the_backbone_applies_its_layer_over_and_over() {
    let mut loader = Loader::new();
    let model = KokoroAlbert::load(&mut loader, &config()).unwrap();
    assert_eq!(loader.count(), 25);
    assert_eq!(
        loader.requirements()[0].check(&[1, 128]).unwrap_err(),
        "invalid ALBERT word embeddings"
    );
    let listed = |indices: &[usize]| -> Vec<TensorInfo> {
        indices
            .iter()
            .map(|i| TensorInfo {
                name: loader.requirements()[*i].name.clone(),
                shape: vec![1],
                bytes: 0,
            })
            .collect()
    };
    assert_eq!(
        loader.check(&listed(&[0, 2])).unwrap_err(),
        "Kokoro tensor bert.module.embeddings.position_embeddings.weight is missing"
    );
    assert_eq!(
        loader.check(&listed(&[0, 1, 2])).unwrap_err(),
        "invalid ALBERT word embeddings"
    );
    assert_eq!(
        loader.requirements()[3].absent(),
        "could not load bert.module.embeddings.LayerNorm.weight"
    );
    let mut plan = loader.into_plan();
    let rows = model.encode(&mut plan, &[0, 2, 0]).unwrap();
    assert_eq!(plan.size(rows), 3 * 512);
    assert_eq!(launches(&plan, Kernel::MhaNaiveFull), 12);
    assert_eq!(
        model.encode(&mut plan, &[]).unwrap_err(),
        "Kokoro ALBERT input is empty"
    );
    assert_eq!(
        model.encode(&mut plan, &[178]).unwrap_err(),
        "Kokoro ALBERT token is outside vocabulary"
    );
    assert_eq!(
        model.encode(&mut plan, &[1; 513]).unwrap_err(),
        "Kokoro ALBERT sequence exceeds position embeddings"
    );
    let mut other = config();
    other.plbert.intermediate_size = 1;
    assert_eq!(
        KokoroAlbert::load(&mut Loader::new(), &other).unwrap_err(),
        "unsupported Kokoro ALBERT geometry"
    );
}

#[test]
fn text_rows_are_repeated_by_their_durations() {
    let mut loader = Loader::new();
    let encoder = KokoroTextEncoder::load(&mut loader);
    assert_eq!(loader.count(), 24);
    assert_eq!(
        loader.requirements()[2].check(&[]).unwrap_err(),
        "invalid module.cnn.0.0.weight_v"
    );
    assert_eq!(
        loader.requirements()[4].check(&[]).unwrap_err(),
        "invalid text_encoder.module.cnn.0.1.gamma shape"
    );
    let mut plan = loader.into_plan();
    let rows = encoder.encode_aligned(&mut plan, &[0, 3, 0], &[1, 0, 4]).unwrap();
    assert_eq!(plan.size(rows), 5 * 512);
    assert_eq!(launches(&plan, Kernel::Conv1dGeneralF16), 3);
    assert_eq!(
        encoder.encode_aligned(&mut plan, &[0], &[]).unwrap_err(),
        "invalid Kokoro text/duration geometry"
    );
    assert_eq!(
        encoder.encode_aligned(&mut plan, &[178], &[1]).unwrap_err(),
        "Kokoro text token outside vocabulary"
    );
}

#[test]
fn styled_blocks_keep_or_double_the_frames() {
    for (input, output, upsample, tensors) in [
        (512u32, 512u32, false, 10usize),
        (512, 256, true, 15),
        (514, 1024, false, 12),
    ] {
        let mut loader = Loader::new();
        let block =
            KokoroAdaInResBlock::load(&mut loader, "decoder", "b", input, output, upsample);
        assert_eq!(loader.count(), tensors);
        let mut plan = loader.into_plan();
        let style = plan.given(128);
        let rows = plan.given(7 * input as usize);
        let out = block.forward(&mut plan, rows, 7, style).unwrap();
        let frames = if upsample { 14 } else { 7 };
        assert_eq!(plan.size(out), frames * output as usize);
        assert_eq!(
            block.forward(&mut plan, style, 7, style).unwrap_err(),
            "invalid Kokoro AdaIN block input"
        );
    }
}

#[test]
fn durations_are_prepared_and_aligned() {
    let mut loader = Loader::new();
    let model = KokoroProsodyFrontend::load(&mut loader, &config()).unwrap();
    assert_eq!(loader.count(), 65);
    assert_eq!(
        loader.requirements()[8].check(&[1]).unwrap_err(),
        "invalid Kokoro duration AdaLayerNorm 0"
    );
    let mut plan = loader.into_plan();
    let bytes = voice_bytes(510 * 256);
    let voice = KokoroVoice::load(&bytes, &config()).unwrap();
    let rows = model.predict(&mut plan, &[0, 2, 2, 0], &voice, 1.0f32.to_bits()).unwrap();
    assert_eq!(plan.size(rows.input), 4 * 640);
    assert_eq!(plan.size(rows.hidden), 4 * 512);
    assert_eq!(plan.size(rows.style), 128);
    let style = voice.style_for_phoneme_count(2).unwrap();
    let prosody = align(&mut plan, rows, vec![2, 1, 5, 1], style);
    assert_eq!(prosody.acoustic_frames, 9);
    assert_eq!(plan.size(prosody.aligned), 9 * 640);
    assert_eq!(prosody.decoder_style[0], style[0]);
    assert_eq!(prosody.predictor_style[0], style[128]);
    assert_eq!(
        model.predict(&mut plan, &[0, 2, 0], &voice, (-1.0f32).to_bits()).unwrap_err(),
        "Kokoro speed must be positive"
    );
    assert_eq!(
        model.predict(&mut plan, &[0, 0], &voice, 1.0f32.to_bits()).unwrap_err(),
        "Kokoro input requires boundary and phoneme tokens"
    );
    assert_eq!(
        model.predict(&mut plan, &[1; 513], &voice, 1.0f32.to_bits()).unwrap_err(),
        "Kokoro voice has no style for 511 phonemes"
    );
}

#[test]
fn a_narrow_voice_is_refused() {
    let mut narrow = config();
    narrow.style_dim = 64;
    let bytes = voice_bytes(510 * 128);
    let voice = KokoroVoice::load(&bytes, &narrow).unwrap();
    let mut loader = Loader::new();
    let model = KokoroProsodyFrontend::load(&mut loader, &config()).unwrap();
    let mut plan = loader.into_plan();
    assert_eq!(
        model.predict(&mut plan, &[0, 1, 0], &voice, 1.0f32.to_bits()).unwrap_err(),
        "Kokoro voice style must have 256 values"
    );
}

#[test]
fn pitch_and_noise_have_two_values_per_frame() {
    let mut loader = Loader::new();
    let model = KokoroF0Noise::load(&mut loader);
    assert_eq!(loader.count(), 82);
    assert_eq!(
        loader.requirements()[78].check(&[1]).unwrap_err(),
        "invalid Kokoro projection module.F0_proj"
    );
    let mut plan = loader.into_plan();
    let aligned = plan.given(9 * 640);
    let style = plan.given(128);
    let out = model.predict(&mut plan, aligned, 9, style).unwrap();
    assert_eq!(plan.size(out.f0), 18);
    assert_eq!(plan.size(out.noise), 18);
    assert_eq!(
        model.predict(&mut plan, aligned, 8, style).unwrap_err(),
        "invalid Kokoro F0/noise input"
    );
    let nothing = plan.given(0);
    assert_eq!(
        model.predict(&mut plan, nothing, 0, style).unwrap_err(),
        "invalid Kokoro BiLSTM input geometry"
    );
}

#[test]
fn the_decoder_doubles_the_frames() {
    let mut loader = Loader::new();
    let decoder = KokoroDecoderFrontend::load(&mut loader);
    assert_eq!(loader.count(), 72);
    assert_eq!(
        loader.requirements()[51].check(&[2]).unwrap_err(),
        "invalid Kokoro decoder convolution module.F0_conv"
    );
    let mut plan = loader.into_plan();
    let asr = plan.given(4 * 512);
    let f0 = plan.given(8);
    let noise = plan.given(8);
    let style = plan.given(128);
    let rows = decoder.decode(&mut plan, asr, f0, noise, 4, style).unwrap();
    assert_eq!(plan.size(rows), 8 * 512);
    assert_eq!(
        decoder.decode(&mut plan, asr, f0, noise, 5, style).unwrap_err(),
        "invalid Kokoro decoder input geometry"
    );
}

#[test]
fn the_generator_meets_its_excitation() {
    let mut loader = Loader::new();
    let generator = KokoroGenerator::load(&mut loader).unwrap();
    assert_eq!(loader.count(), 303);
    assert_eq!(
        loader.requirements()[2].check(&[1]).unwrap_err(),
        "invalid Kokoro transposed convolution module.generator.ups.0"
    );
    let mut plan = loader.into_plan();
    let latent = plan.given(2 * 512);
    let source = plan.given(121 * 22);
    let style = plan.given(128);
    let out = generator.synthesize(&mut plan, latent, 2, source, 2, style).unwrap();
    assert_eq!(plan.size(out), 22 * 121);
    assert_eq!(launches(&plan, Kernel::ScatterConvTransposePhaseF16), 16);
    assert_eq!(launches(&plan, Kernel::ReflectionPadLeftF16), 1);
    assert_eq!(
        generator.synthesize(&mut plan, latent, 3, source, 2, style).unwrap_err(),
        "invalid Kokoro generator input"
    );
    let short = plan.given(120 * 22);
    assert_eq!(
        generator.synthesize(&mut plan, latent, 2, short, 2, style).unwrap_err(),
        "invalid Kokoro source STFT"
    );
}

#[test]
fn generator_blocks_keep_their_shape() {
    let mut loader = Loader::new();
    let block = KokoroGeneratorResBlock::load(&mut loader, "r", 128, 11);
    assert_eq!(loader.count(), 36);
    let mut plan = loader.into_plan();
    let rows = plan.given(5 * 128);
    let style = plan.given(128);
    let out = block.forward(&mut plan, rows, 5, style).unwrap();
    assert_eq!(plan.size(out), 5 * 128);
    assert_eq!(launches(&plan, Kernel::SnakeF16), 6);
    assert_eq!(
        block.forward(&mut plan, rows, 4, style).unwrap_err(),
        "invalid Kokoro generator residual input"
    );
}

#[test]
fn only_doubled_kernels_are_phased() {
    let mut loader = Loader::new();
    assert!(ConvTranspose::load(&mut loader, "u", 4, 2, 20, 10, 5).is_ok());
    assert_eq!(
        ConvTranspose::load(&mut loader, "u", 4, 2, 20, 10, 4).unwrap_err(),
        "unsupported Kokoro transposed convolution geometry"
    );
}

fn transposed(x: &[i64], w: &[i64], input: usize, output: usize, kernel: usize, stride: usize, padding: usize) -> Vec<i64> {
    let frames = x.len() / input;
    let out_frames = (frames - 1) * stride + kernel - 2 * padding;
    let mut out = vec![0; output * out_frames];
    for i in 0..input {
        for t in 0..frames {
            for o in 0..output {
                for k in 0..kernel {
                    let place = t * stride + k;
                    if place >= padding && place - padding < out_frames {
                        out[o * out_frames + place - padding] +=
                            x[i * frames + t] * w[(i * output + o) * kernel + k];
                    }
                }
            }
        }
    }
    out
}

#[test]
fn phases_make_up_a_transposed_convolution() {
    let (input, output, stride, padding, frames) = (3usize, 2usize, 4usize, 2usize, 5usize);
    let kernel = 2 * stride;
    let w: Vec<i64> = (0..input * output * kernel).map(|i| (i as i64 * 7) % 11 - 5).collect();
    let x: Vec<i64> = (0..input * frames).map(|i| (i as i64 * 5) % 13 - 6).collect();
    let expected = transposed(&x, &w, input, output, kernel, stride, padding);
    let mut out = vec![0; output * frames * stride];
    for phase in 0..stride {
        let taps = gather_phase(&w, input, output, kernel, stride, padding, phase);
        let offset = ((phase + padding) / stride) as i64 - 1;
        for q in 0..frames {
            for o in 0..output {
                let mut sum = 0;
                for i in 0..input {
                    for side in 0..2 {
                        let t = q as i64 + offset + side;
                        if t >= 0 && t < frames as i64 {
                            sum += taps[(o * input + i) * 2 + side as usize]
                                * x[i * frames + t as usize];
                        }
                    }
                }
                out[o * frames * stride + q * stride + phase] = sum;
            }
        }
    }
    assert_eq!(out, expected);
}

#[test]
fn padded_positions_are_reflected() {
    assert_eq!(reflect(0, 10, 300), 10);
    assert_eq!(reflect(10, 10, 300), 0);
    assert_eq!(reflect(309, 10, 300), 299);
    assert_eq!(reflect(310, 10, 300), 298);
    assert_eq!(reflect(319, 10, 300), 289);
    for i in 1..=4 {
        assert_eq!(reflect(10 - i, 10, 5), i);
        assert_eq!(reflect(10 + i, 10, 5), i);
        assert_eq!(reflect_index(-(i as isize), 5), i);
    }
    assert_eq!(reflect(0, 0, 1), 0);
}

#[test]
fn rows_stay_beside_one_another() {
    let mut plan = Plan::new();
    let input = plan.given(2 * 640);
    let prosody = align(
        &mut plan,
        DurationRows { input, hidden: input, style: input },
        vec![3, 0],
        &[0; 256],
    );
    assert_eq!(prosody.durations, vec![3, 0]);
    assert_eq!(plan.size(prosody.aligned), 3 * 640);
}
