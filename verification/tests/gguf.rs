use chew_tts::gguf::file::GgufFile;
use chew_tts::gguf::quant::{decode_q4k_scale, dequantize, Weight};
use chew_tts::gguf::shares::type_distribution;
use chew_tts::gguf::tokenizer::{
    build_tokenizer_json, describe_tokenizer, extract_tokenizer, get_i32_array, get_string_array, try_extract_tokenizer,
    TOKEN_TYPE_CONTROL, TOKEN_TYPE_NORMAL, TOKEN_TYPE_UNKNOWN,
};
use chew_tts::gguf::types::{
    to_hexadecimal, FloatBits, GgmlType, GgufError, MetadataValue, TensorInfo,
};
use tokenizers::Tokenizer;

fn put_text(out: &mut Vec<u8>, text: &str) {
    out.extend_from_slice(&(text.len() as u64).to_le_bytes());
    out.extend_from_slice(text.as_bytes());
}

fn put_u32(out: &mut Vec<u8>, n: u32) {
    out.extend_from_slice(&n.to_le_bytes());
}

fn put_u64(out: &mut Vec<u8>, n: u64) {
    out.extend_from_slice(&n.to_le_bytes());
}

fn put_string_entry(out: &mut Vec<u8>, key: &str, value: &str) {
    put_text(out, key);
    put_u32(out, 8);
    put_text(out, value);
}

fn put_u32_entry(out: &mut Vec<u8>, key: &str, value: u32) {
    put_text(out, key);
    put_u32(out, 4);
    put_u32(out, value);
}

fn start(version: u32, tensors: u64, entries: u64) -> Vec<u8> {
    let mut out = b"GGUF".to_vec();
    put_u32(&mut out, version);
    put_u64(&mut out, tensors);
    put_u64(&mut out, entries);
    out
}

fn put_tensor(out: &mut Vec<u8>, name: &str, shape: &[u64], kind: u32, offset: u64) {
    put_text(out, name);
    put_u32(out, shape.len() as u32);
    for n in shape {
        put_u64(out, *n);
    }
    put_u32(out, kind);
    put_u64(out, offset);
}

fn small_file() -> Vec<u8> {
    let mut out = start(3, 2, 4);
    put_string_entry(&mut out, "general.architecture", "llama");
    put_u32_entry(&mut out, "llama.block_count", 7);
    put_u32_entry(&mut out, "llama.block_count", 12);
    put_text(&mut out, "llama.rope.freq_base");
    put_u32(&mut out, 6);
    out.extend_from_slice(&10000.0f32.to_le_bytes());
    put_tensor(&mut out, "a", &[3], 0, 0);
    put_tensor(&mut out, "b", &[32, 2], 8, 32);
    while out.len() % 32 != 0 {
        out.push(0);
    }
    for i in 0..100u8 {
        out.push(i);
    }
    out
}

#[test]
fn gemma4_tokenizer_preserves_spaces_and_control_tokens() {
    let tokens = vec![
        "<pad>".to_string(),
        "<eos>".to_string(),
        "<bos>".to_string(),
        "<unk>".to_string(),
        "<|channel>".to_string(),
        "<channel|>".to_string(),
        "<|turn>".to_string(),
        "<turn|>".to_string(),
        "Hello".to_string(),
        " world".to_string(),
        "!".to_string(),
        "final".to_string(),
    ];
    let token_types = vec![
        TOKEN_TYPE_CONTROL,
        TOKEN_TYPE_CONTROL,
        TOKEN_TYPE_CONTROL,
        TOKEN_TYPE_UNKNOWN,
        TOKEN_TYPE_CONTROL,
        TOKEN_TYPE_CONTROL,
        TOKEN_TYPE_CONTROL,
        TOKEN_TYPE_CONTROL,
        TOKEN_TYPE_NORMAL,
        TOKEN_TYPE_NORMAL,
        TOKEN_TYPE_NORMAL,
        TOKEN_TYPE_NORMAL,
    ];
    let json = build_tokenizer_json(
        &tokens,
        Some(&[]),
        Some(&token_types),
        "gemma4",
        Some(2),
        Some(1),
        Some(3),
        Some(0),
    );
    let tokenizer =
        Tokenizer::from_bytes(serde_json::to_vec(&json).expect("serialize tokenizer json"))
            .expect("build tokenizer");

    assert_eq!(tokenizer.token_to_id("<|channel>"), Some(4));
    assert_eq!(tokenizer.token_to_id("<channel|>"), Some(5));
    assert_eq!(tokenizer.token_to_id("<|turn>"), Some(6));
    assert_eq!(tokenizer.token_to_id("<turn|>"), Some(7));
    assert_eq!(
        tokenizer
            .decode(&[8, 9, 10], false)
            .expect("decode plain text"),
        "Hello world!"
    );

    let with_controls = tokenizer
        .decode(&[4, 11, 5, 8, 9, 10, 7], false)
        .expect("decode control tokens");
    assert_eq!(
        with_controls,
        "<|channel>final<channel|>Hello world!<turn|>"
    );
}

#[test]
fn reads_a_small_file() {
    let bytes = small_file();
    let file = GgufFile::open(&bytes).unwrap();
    assert_eq!(file.header.version, 3);
    assert_eq!(file.header.n_tensors, 2);
    assert_eq!(file.header.architecture(), Some("llama"));
    assert_eq!(file.header.model_arch(), Some("llama"));
    assert_eq!(file.header.model_name(), None);
    assert_eq!(file.header.block_count(), Some(12));
    assert_eq!(file.header.embedding_length(), None);
    assert_eq!(
        file.header.rope_freq_base(),
        Some(FloatBits::Single(10000.0f32.to_bits()))
    );
    assert_eq!(file.tensors[1].name, "b");
    assert_eq!(file.tensors[1].shape, vec![32, 2]);
    assert_eq!(file.tensors[1].ggml_type, GgmlType::Q8_0);
    assert_eq!(file.data_offset % 32, 0);
    assert_eq!(file.total_data_bytes(), 12 + 68);
    let (info, data) = file.tensor_data_by_name("b").unwrap();
    assert_eq!(info.offset, 32);
    assert_eq!(data.len(), 68);
    assert_eq!(data[0], 32);
    let a = file.tensor_data(file.find_tensor("a").unwrap()).unwrap();
    assert_eq!(a, &[0, 1, 2, 3, 4, 5, 6, 7, 8, 9, 10, 11]);
}

#[test]
fn data_beyond_the_file_are_refused() {
    let bytes = small_file();
    let file = GgufFile::open(&bytes).unwrap();
    let mut far = TensorInfo {
        name: "far".to_string(),
        n_dims: 1,
        shape: vec![17],
        ggml_type: GgmlType::F32,
        offset: 32,
    };
    assert_eq!(file.tensor_data(&far).unwrap().len(), 68);
    assert_eq!(file.tensor_data(&far).unwrap()[67], 99);
    far.offset = 33;
    let end = file.data_offset + 33 + 68;
    match file.tensor_data(&far) {
        Err(GgufError::FileTooSmall { needed, file_size }) => {
            assert_eq!((needed, file_size), (end, end - 1));
        }
        _ => panic!("expected a file that is too small"),
    }
}

#[test]
fn a_missing_tensor_is_named() {
    let bytes = small_file();
    let file = GgufFile::open(&bytes).unwrap();
    match file.tensor_data_by_name("c") {
        Err(GgufError::TensorNotFound(name)) => assert_eq!(name, "c"),
        _ => panic!("expected a missing tensor"),
    }
}

#[test]
fn a_wrong_magic_is_shown() {
    let error = GgufFile::open(b"GGML\x03\0\0\0").err().unwrap();
    assert_eq!(
        error.message(),
        "invalid GGUF magic: expected 0x46554747, got 0x4C4D4747"
    );
}

#[test]
fn a_wrong_version_is_shown() {
    let bytes = start(1, 0, 0);
    assert_eq!(
        GgufFile::open(&bytes).err().unwrap().message(),
        "unsupported GGUF version: 1 (supported: 2, 3)"
    );
}

#[test]
fn short_bytes_are_refused() {
    let bytes = start(2, 0, 1);
    assert_eq!(
        GgufFile::open(&bytes).err().unwrap().message(),
        "I/O error: failed to fill whole buffer"
    );
    assert_eq!(
        GgufFile::open(&[]).err().unwrap().message(),
        "I/O error: failed to fill whole buffer"
    );
}

#[test]
fn an_unknown_tensor_type_is_shown() {
    let mut bytes = start(3, 1, 0);
    put_tensor(&mut bytes, "a", &[1], 4, 0);
    assert_eq!(
        GgufFile::open(&bytes).err().unwrap().message(),
        "unknown ggml type: 4"
    );
}

#[test]
fn an_unknown_value_type_is_shown() {
    let mut bytes = start(3, 0, 1);
    put_text(&mut bytes, "k");
    put_u32(&mut bytes, 13);
    assert_eq!(
        GgufFile::open(&bytes).err().unwrap().message(),
        "unknown metadata value type: 13"
    );
    let mut nested = start(3, 0, 1);
    put_text(&mut nested, "k");
    put_u32(&mut nested, 9);
    put_u32(&mut nested, 9);
    put_u64(&mut nested, 1);
    assert_eq!(
        GgufFile::open(&nested).err().unwrap().message(),
        "unknown metadata value type: 9"
    );
}

#[test]
fn data_beyond_the_end_are_refused() {
    let mut bytes = start(3, 1, 0);
    put_tensor(&mut bytes, "a", &[8], 0, 0);
    let header = bytes.len() as u64;
    let data = (header + 31) / 32 * 32;
    assert_eq!(
        GgufFile::open(&bytes).err().unwrap().message(),
        format!(
            "file too small for tensor data (need {}, file has {})",
            data + 32,
            header
        )
    );
}

#[test]
fn sizes_that_cannot_be_counted_give_nothing() {
    let mut bytes = start(3, 1, 0);
    put_tensor(&mut bytes, "a", &[u64::MAX, 2], 0, 0);
    assert!(GgufFile::try_open(&bytes).is_none());
    let good = small_file();
    assert!(GgufFile::try_open(&good).unwrap().is_ok());
    assert!(GgufFile::try_open(b"GGML").unwrap().is_err());
}

#[test]
fn every_value_type_is_read() {
    let mut bytes = start(2, 0, 12);
    put_text(&mut bytes, "u8");
    put_u32(&mut bytes, 0);
    bytes.push(200);
    put_text(&mut bytes, "i8");
    put_u32(&mut bytes, 1);
    bytes.push(200);
    put_text(&mut bytes, "u16");
    put_u32(&mut bytes, 2);
    bytes.extend_from_slice(&40000u16.to_le_bytes());
    put_text(&mut bytes, "i16");
    put_u32(&mut bytes, 3);
    bytes.extend_from_slice(&(-5i16).to_le_bytes());
    put_u32_entry(&mut bytes, "u32", 9);
    put_text(&mut bytes, "i32");
    put_u32(&mut bytes, 5);
    bytes.extend_from_slice(&(-1i32).to_le_bytes());
    put_text(&mut bytes, "bool");
    put_u32(&mut bytes, 7);
    bytes.push(2);
    put_text(&mut bytes, "list");
    put_u32(&mut bytes, 9);
    put_u32(&mut bytes, 7);
    put_u64(&mut bytes, 2);
    bytes.push(1);
    bytes.push(0);
    put_text(&mut bytes, "u64");
    put_u32(&mut bytes, 10);
    put_u64(&mut bytes, u64::MAX);
    put_text(&mut bytes, "i64");
    put_u32(&mut bytes, 11);
    bytes.extend_from_slice(&(-2i64).to_le_bytes());
    put_text(&mut bytes, "f64");
    put_u32(&mut bytes, 12);
    bytes.extend_from_slice(&1.5f64.to_le_bytes());
    put_text(&mut bytes, "lossy");
    put_u32(&mut bytes, 8);
    put_u64(&mut bytes, 3);
    bytes.extend_from_slice(&[b'a', 0xff, b'b']);
    let file = GgufFile::open(&bytes).unwrap();
    let header = &file.header;
    assert!(matches!(header.value("u8"), Some(MetadataValue::Uint8(200))));
    assert!(matches!(header.value("i8"), Some(MetadataValue::Int8(-56))));
    assert!(matches!(header.value("u16"), Some(MetadataValue::Uint16(40000))));
    assert!(matches!(header.value("i16"), Some(MetadataValue::Int16(-5))));
    assert!(matches!(header.value("i32"), Some(MetadataValue::Int32(-1))));
    assert!(matches!(header.value("bool"), Some(MetadataValue::Bool(true))));
    assert!(matches!(header.value("i64"), Some(MetadataValue::Int64(-2))));
    assert_eq!(header.value("u64").unwrap().as_u64(), Some(u64::MAX));
    assert_eq!(header.value("u32").unwrap().as_u64(), Some(9));
    assert_eq!(
        header.value("f64").unwrap().as_f32(),
        Some(FloatBits::Double(1.5f64.to_bits()))
    );
    assert_eq!(header.value("lossy").unwrap().as_str(), Some("a\u{fffd}b"));
    assert_eq!(header.token_id("i32"), Some(u32::MAX));
    assert_eq!(header.token_id("u8"), Some(200));
    assert_eq!(header.token_id("i16"), None);
    assert_eq!(header.get_bool_array("list").unwrap(), vec![true, false]);
    assert_eq!(
        header.get_u32("nothing").err().unwrap().message(),
        "tensor not found: nothing"
    );
    assert_eq!(header.get_u32("u16").unwrap(), 40000);
    assert!(header.get_f32("u16").is_err());
    assert!(header.get_u32_array("u16").is_err());
}

#[test]
fn stored_text_is_read_back() {
    let mut bytes = start(3, 0, 1);
    put_string_entry(&mut bytes, "general.name", "Größe ▁ 音");
    let file = GgufFile::open(&bytes).unwrap();
    assert_eq!(file.header.model_name(), Some("Größe ▁ 音"));
}

#[test]
fn the_end_of_a_turn_is_preferred() {
    let mut bytes = start(3, 0, 2);
    put_u32_entry(&mut bytes, "tokenizer.ggml.eos_token_id", 2);
    put_u32_entry(&mut bytes, "tokenizer.ggml.eot_token_id", 5);
    let file = GgufFile::open(&bytes).unwrap();
    assert_eq!(file.header.eos_token_id(), Some(2));
    assert_eq!(file.header.preferred_eos_token_id(), Some(5));
    assert_eq!(file.header.bos_token_id(), None);
}

#[test]
fn type_numbers_are_told_apart() {
    let mut seen = Vec::new();
    for v in 0..64 {
        if let Some(t) = GgmlType::from_u32(v) {
            assert!(!seen.contains(&t));
            seen.push(t);
        }
    }
    assert_eq!(seen.len(), 29);
    assert!(GgmlType::from_u32(4).is_none());
    assert!(GgmlType::from_u32(5).is_none());
    assert!(GgmlType::from_u32(31).is_none());
}

#[test]
fn block_tables_hold_exact_sizes() {
    assert_eq!(GgmlType::F32.block_size(), 1);
    assert_eq!(GgmlType::Q4_0.block_size(), 32);
    assert_eq!(GgmlType::IQ4_NL.block_size(), 32);
    assert_eq!(GgmlType::Q4_K.block_size(), 256);
    assert_eq!(GgmlType::Q4_0.block_bytes(), 18);
    assert_eq!(GgmlType::Q6_K.block_bytes(), 210);
    assert_eq!(GgmlType::IQ1_M.block_bytes(), 58);
    assert_eq!(GgmlType::F64.block_bytes(), 8);
    assert_eq!(GgmlType::IQ2_XXS.name(), "IQ2_XXS");
}

#[test]
fn sizes_round_up_to_blocks() {
    let tensor = |shape: Vec<u64>, ggml_type| TensorInfo {
        name: "t".to_string(),
        n_dims: shape.len() as u32,
        shape,
        ggml_type,
        offset: 0,
    };
    assert_eq!(tensor(vec![], GgmlType::F32).n_elements(), 1);
    assert_eq!(tensor(vec![0, 3], GgmlType::F32).n_elements(), 1);
    assert_eq!(tensor(vec![33], GgmlType::Q8_0).data_size(), 68);
    assert_eq!(tensor(vec![4096, 2], GgmlType::Q4_K).data_size(), 32 * 144);
    assert!(tensor(vec![4096, 2], GgmlType::Q4_K).is_measurable());
    assert!(!tensor(vec![u64::MAX], GgmlType::F32).is_measurable());
}

#[test]
fn shares_make_up_the_whole() {
    let tensor = |shape: Vec<u64>, ggml_type| TensorInfo {
        name: "t".to_string(),
        n_dims: shape.len() as u32,
        shape,
        ggml_type,
        offset: 0,
    };
    let tensors = vec![
        tensor(vec![8], GgmlType::F32),
        tensor(vec![64], GgmlType::Q8_0),
        tensor(vec![2, 2], GgmlType::F32),
        tensor(vec![100], GgmlType::F16),
    ];
    let shares = type_distribution(&tensors);
    let seen: Vec<_> = shares.iter().map(|s| (s.kind, s.tensors, s.bytes)).collect();
    assert_eq!(
        seen,
        vec![
            (GgmlType::F16, 1, 200),
            (GgmlType::Q8_0, 1, 68),
            (GgmlType::F32, 2, 48),
        ]
    );
    let total: u64 = tensors.iter().map(|t| t.data_size()).sum();
    assert_eq!(shares.iter().map(|s| s.bytes).sum::<u64>(), total);
    assert!(type_distribution(&[]).is_empty());
}

#[test]
fn hexadecimal_has_eight_digits() {
    assert_eq!(to_hexadecimal(0x46554747), "46554747");
    assert_eq!(to_hexadecimal(0xab), "000000AB");
}

#[test]
fn scales_are_unpacked() {
    let scales: Vec<u8> = vec![0xc1, 0x42, 0x83, 0x3f, 0xff, 0x12, 0x9c, 0x07, 0x5a, 0, 0, 0xff];
    assert_eq!(decode_q4k_scale(&scales, 0), (0x01, 0x3f));
    assert_eq!(decode_q4k_scale(&scales, 3), (0x3f, 0x07));
    assert_eq!(decode_q4k_scale(&scales, 4), (0x3 | (0xa << 2), 0x3 | (0x5 << 2)));
    assert_eq!(decode_q4k_scale(&scales, 7), (0xf << 2, 0xf << 2));
    let upper: Vec<u8> = vec![0, 0, 0, 0, 0, 0, 0, 0, 255, 255, 255, 255];
    assert_eq!(decode_q4k_scale(&upper, 4), (60, 60));
}

#[test]
fn plain_numbers_are_unpacked() {
    let mut data = Vec::new();
    data.extend_from_slice(&1.0f32.to_le_bytes());
    data.push(1);
    assert_eq!(
        dequantize(&data, GgmlType::F32, 2),
        vec![Weight::Single(1.0f32.to_bits()), Weight::Zero]
    );
    assert_eq!(
        dequantize(&[0x00, 0x3c], GgmlType::F16, 1),
        vec![Weight::Half(0x3c00)]
    );
    assert_eq!(
        dequantize(&[0x80, 0x3f], GgmlType::BF16, 1),
        vec![Weight::Brain(0x3f80)]
    );
    assert_eq!(dequantize(&[1, 2, 3], GgmlType::Q5_1, 1), vec![Weight::Zero]);
}

#[test]
fn simple_blocks_are_unpacked() {
    let mut data = vec![0x00, 0x3c];
    for i in 0..32u8 {
        data.push(i.wrapping_sub(16));
    }
    let weights = dequantize(&data, GgmlType::Q8_0, 33);
    assert_eq!(weights[0], Weight::Scaled { scale: 0x3c00, quant: -16 });
    assert_eq!(weights[31], Weight::Scaled { scale: 0x3c00, quant: 15 });
    assert_eq!(weights[32], Weight::Zero);
    let mut nibbles = vec![0x01, 0x00];
    nibbles.extend_from_slice(&[0xf0; 16]);
    let weights = dequantize(&nibbles, GgmlType::Q4_0, 2);
    assert_eq!(weights[0], Weight::Scaled { scale: 1, quant: -8 });
    assert_eq!(weights[1], Weight::Scaled { scale: 1, quant: 7 });
}

#[test]
fn super_blocks_are_unpacked() {
    let mut q6 = vec![0u8; 210];
    q6[0] = 5;
    q6[2] = 0x21;
    q6[130] = 0x0b;
    q6[194] = 0xff;
    let weights = dequantize(&q6, GgmlType::Q6_K, 256);
    assert_eq!(
        weights[0],
        Weight::Product { scale: 5, sub: -1, quant: 1 + 16 * 3 - 32 }
    );
    assert_eq!(
        weights[1],
        Weight::Product { scale: 5, sub: -1, quant: 2 + 16 * 2 - 32 }
    );
    assert_eq!(
        weights[255],
        Weight::Product { scale: 5, sub: 0, quant: -32 }
    );
    let mut q2 = vec![0u8; 84];
    q2[0] = 1;
    q2[2] = 2;
    q2[4] = 0x73;
    q2[20] = 0b11_10_01_00;
    let weights = dequantize(&q2, GgmlType::Q2_K, 4);
    assert_eq!(
        weights[3],
        Weight::Lowered { scale: 1, min: 2, sub_scale: 3, sub_min: 7, quant: 3 }
    );
    let mut q4 = vec![0u8; 144];
    q4[0] = 1;
    q4[2] = 2;
    q4[4] = 9;
    q4[8] = 6;
    q4[15] = 0x21;
    q4[16] = 0x5a;
    q4[16 + 64] = 0x07;
    q4[16 + 32] = 0x60;
    q4[143] = 0xc3;
    let weights = dequantize(&q4, GgmlType::Q4_K, 256);
    assert_eq!(
        weights[0],
        Weight::Shifted { scale: 1, min: 2, sub_scale: 9, sub_min: 6, quant: 10 }
    );
    assert_eq!(
        weights[1],
        Weight::Shifted { scale: 1, min: 2, sub_scale: 9, sub_min: 6, quant: 5 }
    );
    assert_eq!(
        weights[255],
        Weight::Shifted { scale: 1, min: 2, sub_scale: 4, sub_min: 8, quant: 12 }
    );
    assert_eq!(
        weights[64],
        Weight::Shifted { scale: 1, min: 2, sub_scale: 0, sub_min: 0, quant: 7 }
    );
    assert_eq!(
        weights[129],
        Weight::Shifted { scale: 1, min: 2, sub_scale: 0, sub_min: 0, quant: 6 }
    );
    let blank = dequantize(&[0u8; 144], GgmlType::Q4_K, 256);
    let zero = Weight::Shifted { scale: 0, min: 0, sub_scale: 0, sub_min: 0, quant: 0 };
    assert_eq!(blank, vec![zero; 256]);
}

#[test]
fn every_scale_bit_is_used() {
    for byte in 0..12 {
        for bit in 0..8 {
            let mut scales = [0u8; 12];
            scales[byte] = 1 << bit;
            let raised: u32 = (0..8)
                .map(|sub| decode_q4k_scale(&scales, sub))
                .map(|(scale, min)| scale.count_ones() + min.count_ones())
                .sum();
            assert_eq!(raised, 1);
        }
    }
}

fn tokenizer_file(kind: &str) -> Vec<u8> {
    merging_file(kind, ["<unk>", "a", "b", "ab", "<s>"])
}

fn merging_file(kind: &str, tokens: [&str; 5]) -> Vec<u8> {
    let mut bytes = start(3, 0, 5);
    put_string_entry(&mut bytes, "tokenizer.ggml.model", kind);
    put_text(&mut bytes, "tokenizer.ggml.tokens");
    put_u32(&mut bytes, 9);
    put_u32(&mut bytes, 8);
    put_u64(&mut bytes, 5);
    for token in tokens {
        put_text(&mut bytes, token);
    }
    put_text(&mut bytes, "tokenizer.ggml.merges");
    put_u32(&mut bytes, 9);
    put_u32(&mut bytes, 8);
    put_u64(&mut bytes, 1);
    put_text(&mut bytes, "a b");
    put_text(&mut bytes, "tokenizer.ggml.token_type");
    put_u32(&mut bytes, 9);
    put_u32(&mut bytes, 5);
    put_u64(&mut bytes, 5);
    for kind in [2i32, 1, 1, 1, 3] {
        bytes.extend_from_slice(&kind.to_le_bytes());
    }
    put_u32_entry(&mut bytes, "tokenizer.ggml.unknown_token_id", 0);
    bytes
}

#[test]
fn a_tokenizer_is_extracted() {
    let bytes = tokenizer_file("bpe");
    let file = GgufFile::open(&bytes).unwrap();
    let tokenizer = extract_tokenizer(&file.header).unwrap();
    assert_eq!(tokenizer.token_to_id("ab"), Some(3));
    assert_eq!(tokenizer.encode("abb", false).unwrap().get_ids(), &[3, 2]);
    assert_eq!(tokenizer.encode("a<s>", false).unwrap().get_ids(), &[1, 4]);
    assert!(try_extract_tokenizer(&file.header).unwrap().is_some());
}

#[test]
fn merges_must_fit_the_longest_token() {
    let long = merging_file("bpe", ["c", "a", "b", "d", "e"]);
    let file = GgufFile::open(&long).unwrap();
    assert!(try_extract_tokenizer(&file.header).is_none());
    let unknown = merging_file("bpe", ["<unk>", "a", "b", "c", "<s>"]);
    let file = GgufFile::open(&unknown).unwrap();
    assert!(try_extract_tokenizer(&file.header).unwrap().is_none());
    let foreign = merging_file("bpe", ["c", "a", "d", "e", "f"]);
    let file = GgufFile::open(&foreign).unwrap();
    assert!(try_extract_tokenizer(&file.header).unwrap().is_none());
}

#[test]
fn a_description_depends_on_the_kind() {
    let bytes = tokenizer_file("llama");
    let file = GgufFile::open(&bytes).unwrap();
    let json = describe_tokenizer(&file.header).unwrap();
    assert_eq!(json["model"]["byte_fallback"], true);
    assert_eq!(json["model"]["fuse_unk"], true);
    assert_eq!(json["model"]["unk_token"], "<unk>");
    assert_eq!(json["model"]["vocab"]["ab"], 3);
    assert_eq!(json["model"]["merges"][0], "a b");
    assert_eq!(json["pre_tokenizer"]["pretokenizers"][0]["replacement"], "▁");
    assert_eq!(json["decoder"]["decoders"][1]["type"], "ByteFallback");
    assert_eq!(json["added_tokens"][0]["content"], "<unk>");
    assert_eq!(json["added_tokens"][1]["id"], 4);
    assert!(json["normalizer"].is_null());

    let plain = tokenizer_file("bpe");
    let file = GgufFile::open(&plain).unwrap();
    let json = describe_tokenizer(&file.header).unwrap();
    assert_eq!(json["model"]["byte_fallback"], false);
    assert!(json["model"]["fuse_unk"].is_null());
    assert!(json["pre_tokenizer"].is_null());
    let gpt2 = tokenizer_file("gpt2");
    let file = GgufFile::open(&gpt2).unwrap();
    let json = describe_tokenizer(&file.header).unwrap();
    assert_eq!(json["decoder"]["use_regex"], true);
    assert_eq!(json["pre_tokenizer"]["type"], "ByteLevel");
    let gemma2 = tokenizer_file("gemma2");
    let file = GgufFile::open(&gemma2).unwrap();
    let json = describe_tokenizer(&file.header).unwrap();
    assert_eq!(json["model"]["byte_fallback"], false);
    assert_eq!(json["model"]["fuse_unk"], true);
}

#[test]
fn no_tokens_no_tokenizer() {
    let bytes = small_file();
    let file = GgufFile::open(&bytes).unwrap();
    assert!(extract_tokenizer(&file.header).is_none());
    assert!(try_extract_tokenizer(&file.header).unwrap().is_none());
    assert!(get_string_array(&file.header, "general.architecture").is_none());
    assert!(get_i32_array(&file.header, "tokenizer.ggml.token_type").is_none());
}

#[test]
fn of_equal_tokens_the_last_counts() {
    let tokens = vec!["x".to_string(), "y".to_string(), "x".to_string()];
    let json = build_tokenizer_json(&tokens, None, None, "bpe", None, None, None, None);
    assert_eq!(json["model"]["vocab"]["x"], 2);
    assert_eq!(json["model"]["unk_token"], "<unk>");
    assert_eq!(json["added_tokens"].as_array().unwrap().len(), 0);
}
