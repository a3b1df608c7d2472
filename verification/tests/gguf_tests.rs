use std::path::PathBuf;

use markus::error::MarkusError;
use markus::gguf::{ggml_type_size, GgufLoader, GgufValue};
use markus::model::{ModelFormat, ModelInfo};
use markus::models::{model_family, runner_architecture, ModelFamily};
use markus::pipeline::{GenerationState, TokenEvent};
use markus::tokenizer::MarkusTokenizer;

// ── A small GGUF writer ───────────────────────────────────────────────────────

fn put_u32(b: &mut Vec<u8>, v: u32) {
    b.extend_from_slice(&v.to_le_bytes());
}

fn put_u64(b: &mut Vec<u8>, v: u64) {
    b.extend_from_slice(&v.to_le_bytes());
}

fn put_str(b: &mut Vec<u8>, s: &str) {
    put_u64(b, s.len() as u64);
    b.extend_from_slice(s.as_bytes());
}

fn header(version: u32, tensor_count: u64, kv_count: u64) -> Vec<u8> {
    let mut b = b"GGUF".to_vec();
    put_u32(&mut b, version);
    put_u64(&mut b, tensor_count);
    put_u64(&mut b, kv_count);
    b
}

fn kv_str(b: &mut Vec<u8>, key: &str, value: &str) {
    put_str(b, key);
    put_u32(b, 8);
    put_str(b, value);
}

fn kv_u32(b: &mut Vec<u8>, key: &str, value: u32) {
    put_str(b, key);
    put_u32(b, 4);
    put_u32(b, value);
}

fn kv_u64(b: &mut Vec<u8>, key: &str, value: u64) {
    put_str(b, key);
    put_u32(b, 10);
    put_u64(b, value);
}

fn kv_str_array(b: &mut Vec<u8>, key: &str, items: &[&str]) {
    put_str(b, key);
    put_u32(b, 9);
    put_u32(b, 8);
    put_u64(b, items.len() as u64);
    for it in items {
        put_str(b, it);
    }
}

fn kv_u32_array(b: &mut Vec<u8>, key: &str, items: &[u32]) {
    put_str(b, key);
    put_u32(b, 9);
    put_u32(b, 4);
    put_u64(b, items.len() as u64);
    for it in items {
        put_u32(b, *it);
    }
}

fn tensor(b: &mut Vec<u8>, name: &str, shape: &[u64], dtype: u32, offset: u64) {
    put_str(b, name);
    put_u32(b, shape.len() as u32);
    for d in shape {
        put_u64(b, *d);
    }
    put_u32(b, dtype);
    put_u64(b, offset);
}

/// A llama-style header with a small vocabulary and one tensor.
fn llama_file() -> Vec<u8> {
    let mut b = header(3, 1, 8);
    kv_str(&mut b, "general.architecture", "llama");
    kv_str(&mut b, "general.name", "Tiny Llama");
    kv_u32(&mut b, "llama.context_length", 2048);
    kv_u64(&mut b, "llama.embedding_length", 256);
    kv_u32(&mut b, "llama.block_count", 4);
    kv_u32(&mut b, "llama.attention.head_count", 8);
    kv_str_array(&mut b, "tokenizer.ggml.tokens", &["<s>", "</s>", "h", "e", "l", "o", "he", "hello", "\u{2581}world"]);
    kv_u32(&mut b, "tokenizer.ggml.bos_token_id", 0);
    tensor(&mut b, "token_embd.weight", &[256, 9], 0, 0);
    b
}

fn parse(b: &[u8]) -> GgufLoader {
    GgufLoader::parse(b).expect("header parses")
}

fn str_of(v: Option<&GgufValue>) -> Option<String> {
    match v {
        Some(GgufValue::String(s)) => Some(s.clone()),
        _ => None,
    }
}

// ── Header parsing ────────────────────────────────────────────────────────────

#[test]
fn parses_header_fields() {
    let b = llama_file();
    let l = parse(&b);
    assert_eq!(l.meta.version, 3);
    assert_eq!(l.meta.tensor_count, 1);
    assert_eq!(l.meta.kv_count, 8);
    assert_eq!(l.meta.kv.len(), 8);
    assert_eq!(l.tensors.len(), 1);
    assert_eq!(l.tensors[0].name, "token_embd.weight");
    assert_eq!(l.tensors[0].shape, vec![256, 9]);
    assert_eq!(l.tensors[0].dtype, 0);
    assert_eq!(str_of(l.meta.get("general.name")), Some("Tiny Llama".to_string()));
}

#[test]
fn data_offset_is_next_multiple_of_32() {
    let b = llama_file();
    let l = parse(&b);
    let end = b.len() as u64;
    assert_eq!(l.data_offset % 32, 0);
    assert!(l.data_offset >= end && l.data_offset < end + 32);
    assert_eq!(l.data_offset, (end + 31) / 32 * 32);
}

#[test]
fn more_bytes_after_the_header_change_nothing() {
    let b = llama_file();
    let short = parse(&b);
    let mut longer = b.clone();
    longer.extend_from_slice(&[0xAB; 100]);
    let long = parse(&longer);
    assert_eq!(short.data_offset, long.data_offset);
    assert_eq!(short.meta.kv.len(), long.meta.kv.len());
    assert_eq!(short.tensors.len(), long.tensors.len());
    assert_eq!(short.meta.architecture(), long.meta.architecture());
}

#[test]
fn version_two_is_accepted() {
    let mut b = header(2, 0, 1);
    kv_str(&mut b, "general.architecture", "phi3");
    let l = parse(&b);
    assert_eq!(l.meta.version, 2);
    assert_eq!(l.meta.architecture(), Some("phi3"));
}

#[test]
fn bad_magic_is_refused() {
    let mut b = header(3, 0, 0);
    b[0] = b'X';
    match GgufLoader::parse(&b) {
        Err(MarkusError::GgufParse(m)) => assert_eq!(m, "Invalid GGUF magic number"),
        other => panic!("unexpected {:?}", other.map(|_| ())),
    }
}

#[test]
fn unsupported_version_is_refused() {
    let b = header(1, 0, 0);
    match GgufLoader::parse(&b) {
        Err(MarkusError::GgufParse(m)) => assert_eq!(m, "Unsupported GGUF version: 1"),
        other => panic!("unexpected {:?}", other.map(|_| ())),
    }
}

#[test]
fn truncated_header_is_an_io_error() {
    let b = llama_file();
    match GgufLoader::parse(&b[..b.len() - 3]) {
        Err(MarkusError::Io(m)) => assert_eq!(m, "failed to fill whole buffer"),
        other => panic!("unexpected {:?}", other.map(|_| ())),
    }
    match GgufLoader::parse(&b[..2]) {
        Err(MarkusError::Io(_)) => {},
        other => panic!("unexpected {:?}", other.map(|_| ())),
    }
}

#[test]
fn unknown_value_type_is_refused() {
    let mut b = header(3, 0, 1);
    put_str(&mut b, "x");
    put_u32(&mut b, 13);
    match GgufLoader::parse(&b) {
        Err(MarkusError::GgufParse(m)) => assert_eq!(m, "Unknown GGUF value type: 13"),
        other => panic!("unexpected {:?}", other.map(|_| ())),
    }
}

#[test]
fn unknown_array_element_type_is_refused() {
    let mut b = header(3, 0, 1);
    put_str(&mut b, "x");
    put_u32(&mut b, 9);
    put_u32(&mut b, 9);
    put_u64(&mut b, 1);
    match GgufLoader::parse(&b) {
        Err(MarkusError::GgufParse(m)) => assert_eq!(m, "Unknown GGUF array elem type: 9"),
        other => panic!("unexpected {:?}", other.map(|_| ())),
    }
}

#[test]
fn invalid_utf8_string_is_refused() {
    let mut b = header(3, 0, 1);
    put_u64(&mut b, 2);
    b.extend_from_slice(&[0xFF, 0xFE]);
    put_u32(&mut b, 4);
    put_u32(&mut b, 1);
    match GgufLoader::parse(&b) {
        Err(MarkusError::GgufParse(m)) => assert!(m.starts_with("Invalid UTF-8 string: ")),
        other => panic!("unexpected {:?}", other.map(|_| ())),
    }
}

#[test]
fn all_plain_value_types_parse() {
    let mut b = header(3, 0, 11);
    put_str(&mut b, "u8");
    put_u32(&mut b, 0);
    b.push(200);
    put_str(&mut b, "i8");
    put_u32(&mut b, 1);
    b.push(0xFF);
    put_str(&mut b, "u16");
    put_u32(&mut b, 2);
    b.extend_from_slice(&513u16.to_le_bytes());
    put_str(&mut b, "i16");
    put_u32(&mut b, 3);
    b.extend_from_slice(&(-2i16).to_le_bytes());
    put_str(&mut b, "i32");
    put_u32(&mut b, 5);
    b.extend_from_slice(&(-7i32).to_le_bytes());
    put_str(&mut b, "f32");
    put_u32(&mut b, 6);
    b.extend_from_slice(&1.5f32.to_le_bytes());
    put_str(&mut b, "bool");
    put_u32(&mut b, 7);
    b.push(1);
    put_str(&mut b, "u64");
    put_u32(&mut b, 10);
    put_u64(&mut b, 1 << 40);
    put_str(&mut b, "i64");
    put_u32(&mut b, 11);
    b.extend_from_slice(&(-9i64).to_le_bytes());
    put_str(&mut b, "f64");
    put_u32(&mut b, 12);
    b.extend_from_slice(&2.25f64.to_le_bytes());
    kv_u32_array(&mut b, "arr", &[1, 2, 3]);
    let l = parse(&b);
    let m = &l.meta;
    assert!(matches!(m.get("u8"), Some(GgufValue::Uint8(200))));
    assert!(matches!(m.get("i8"), Some(GgufValue::Int8(-1))));
    assert!(matches!(m.get("u16"), Some(GgufValue::Uint16(513))));
    assert!(matches!(m.get("i16"), Some(GgufValue::Int16(-2))));
    assert!(matches!(m.get("i32"), Some(GgufValue::Int32(-7))));
    match m.get("f32") {
        Some(GgufValue::Float32(bits)) => assert_eq!(f32::from_bits(*bits), 1.5),
        _ => panic!("f32 missing"),
    }
    assert!(matches!(m.get("bool"), Some(GgufValue::Bool(true))));
    assert!(matches!(m.get("u64"), Some(GgufValue::Uint64(v)) if *v == 1 << 40));
    assert!(matches!(m.get("i64"), Some(GgufValue::Int64(-9))));
    match m.get("f64") {
        Some(GgufValue::Float64(bits)) => assert_eq!(f64::from_bits(*bits), 2.25),
        _ => panic!("f64 missing"),
    }
    match m.get("arr") {
        Some(GgufValue::Array(a)) => assert_eq!(a.len(), 3),
        _ => panic!("array missing"),
    }
    assert!(m.get("missing").is_none());
}

#[test]
fn later_duplicate_key_wins() {
    let mut b = header(3, 0, 2);
    kv_str(&mut b, "general.architecture", "llama");
    kv_str(&mut b, "general.architecture", "qwen2");
    let l = parse(&b);
    assert_eq!(l.meta.architecture(), Some("qwen2"));
}

// ── Metadata accessors ────────────────────────────────────────────────────────

#[test]
fn metadata_accessors_read_architecture_keys() {
    let l = parse(&llama_file());
    let m = &l.meta;
    assert_eq!(m.architecture(), Some("llama"));
    assert_eq!(m.model_name(), Some("Tiny Llama"));
    assert_eq!(m.context_length(), Some(2048));
    assert_eq!(m.embedding_length(), Some(256));
    assert_eq!(m.layer_count(), Some(4));
    assert_eq!(m.head_count(), Some(8));
    assert_eq!(m.vocab_size(), Some(9));
    assert_eq!(m.bos_token_id(), Some(0));
    assert_eq!(m.eos_token_id(), None);
    assert_eq!(m.quantization_type(), None);
    assert_eq!(m.token_list().len(), 9);
    assert_eq!(m.token_list()[7], "hello");
    assert!(m.token_types().is_empty());
}

#[test]
fn value_conversions() {
    assert_eq!(GgufValue::Uint32(7).as_u32(), Some(7));
    assert_eq!(GgufValue::Uint64(7).as_u32(), None);
    assert_eq!(GgufValue::Uint64(9).as_u64(), Some(9));
    assert_eq!(GgufValue::Uint32(9).as_u32_or_u64(), Some(9));
    assert_eq!(GgufValue::Uint64(9).as_u32_or_u64(), Some(9));
    assert_eq!(GgufValue::Int32(9).as_u32_or_u64(), None);
    assert_eq!(GgufValue::String("x".to_string()).as_str(), Some("x"));
    assert_eq!(GgufValue::Bool(true).as_str(), None);
}

#[test]
fn token_types_are_read() {
    let mut b = header(3, 0, 1);
    kv_u32_array(&mut b, "tokenizer.ggml.token_type", &[1, 3, 6]);
    let l = parse(&b);
    assert_eq!(l.meta.token_types(), vec![1, 3, 6]);
}

#[test]
fn defaults_to_llama_prefix_without_architecture() {
    let mut b = header(3, 0, 1);
    kv_u32(&mut b, "llama.context_length", 512);
    let l = parse(&b);
    assert_eq!(l.meta.architecture(), None);
    assert_eq!(l.meta.context_length(), Some(512));
    assert_eq!(runner_architecture(&l.meta), "llama");
}

// ── Memory estimate ───────────────────────────────────────────────────────────

#[test]
fn ggml_type_sizes() {
    assert_eq!(ggml_type_size(0), 32);
    assert_eq!(ggml_type_size(1), 16);
    assert_eq!(ggml_type_size(2), 4);
    assert_eq!(ggml_type_size(3), 4);
    assert_eq!(ggml_type_size(6), 5);
    assert_eq!(ggml_type_size(8), 8);
    assert_eq!(ggml_type_size(10), 2);
    assert_eq!(ggml_type_size(11), 3);
    assert_eq!(ggml_type_size(12), 4);
    assert_eq!(ggml_type_size(13), 5);
    assert_eq!(ggml_type_size(14), 6);
    assert_eq!(ggml_type_size(15), 8);
    assert_eq!(ggml_type_size(17), 16);
    assert_eq!(ggml_type_size(99), 32);
}

#[test]
fn memory_estimate_adds_twenty_percent() {
    let mut b = header(3, 2, 0);
    // 1024 x 1024 f32 = 4 MiB, 1024 x 2048 f16 = 4 MiB
    tensor(&mut b, "a", &[1024, 1024], 0, 0);
    tensor(&mut b, "b", &[1024, 2048], 1, 0);
    let l = parse(&b);
    assert!(l.estimate_fits());
    assert_eq!(l.estimated_memory_mb(), 8 * 12 / 10);
}

#[test]
fn memory_estimate_overflow_is_detected() {
    let mut b = header(3, 1, 0);
    tensor(&mut b, "huge", &[u64::MAX, 2], 0, 0);
    let l = parse(&b);
    assert!(!l.estimate_fits());
}

// ── Tokenizer ─────────────────────────────────────────────────────────────────

fn tokenizer_of(b: &[u8]) -> MarkusTokenizer {
    MarkusTokenizer::from_gguf_meta(&parse(b).meta).expect("vocabulary present")
}

#[test]
fn tokenizer_reads_vocabulary_and_ids() {
    let t = tokenizer_of(&llama_file());
    assert_eq!(t.vocab_size(), 9);
    assert_eq!(t.bos_id(), Some(0));
    assert_eq!(t.eos_id(), None);
    assert!(!t.is_eos(1));
}

#[test]
fn tokenizer_needs_a_vocabulary() {
    let b = header(3, 0, 0);
    match MarkusTokenizer::from_gguf_meta(&parse(&b).meta) {
        Err(MarkusError::Tokenizer(m)) => assert_eq!(m, "No vocabulary found in GGUF metadata"),
        _ => panic!("expected a tokenizer error"),
    }
}

#[test]
fn encode_starts_with_bos_and_takes_longest_match() {
    let t = tokenizer_of(&llama_file());
    // "hello" is one token (7); "he" + "l" ... would be longer
    assert_eq!(t.encode("hello").unwrap(), vec![0, 7]);
    assert_eq!(t.encode("hel").unwrap(), vec![0, 6, 4]);
    assert_eq!(t.encode("").unwrap(), vec![0]);
}

#[test]
fn encode_without_bos() {
    let mut b = header(3, 0, 2);
    kv_str_array(&mut b, "tokenizer.ggml.tokens", &["a", "b", "ab"]);
    kv_u32(&mut b, "tokenizer.ggml.eos_token_id", 1);
    let t = tokenizer_of(&b);
    assert_eq!(t.encode("abba").unwrap(), vec![2, 1, 0]);
    assert!(t.is_eos(1));
    assert_eq!(t.eos_id(), Some(1));
}

#[test]
fn unknown_characters_use_byte_tokens_then_unk() {
    let mut b = header(3, 0, 1);
    kv_str_array(&mut b, "tokenizer.ggml.tokens", &["a", "<0x7A>", "<unk>"]);
    let t = tokenizer_of(&b);
    // 'z' = 0x7A has a byte token; '!' falls back to <unk>
    assert_eq!(t.encode("az!").unwrap(), vec![0, 1, 2]);
    let mut c = header(3, 0, 1);
    kv_str_array(&mut c, "tokenizer.ggml.tokens", &["a"]);
    let t2 = tokenizer_of(&c);
    assert_eq!(t2.encode("a?a").unwrap(), vec![0, 0]);
}

#[test]
fn gpt2_space_marker_is_tried_after_a_space() {
    let mut b = header(3, 0, 1);
    kv_str_array(&mut b, "tokenizer.ggml.tokens", &["hi", "\u{120}there", " "]);
    let t = tokenizer_of(&b);
    assert_eq!(t.encode("hi there").unwrap(), vec![0, 2, 1]);
    assert_eq!(t.decode(&[0, 2, 1]).unwrap(), "hi  there");
}

#[test]
fn decode_replaces_markers_and_bytes() {
    let mut b = header(3, 0, 1);
    kv_str_array(
        &mut b,
        "tokenizer.ggml.tokens",
        &["\u{120}a", "\u{2581}b", "\u{10A}", "\u{109}", "<0x41>", "<0xE9>", "<s>", "<|im_end|>", "x"],
    );
    let t = tokenizer_of(&b);
    assert_eq!(t.decode_token(0).unwrap(), " a");
    assert_eq!(t.decode_token(1).unwrap(), " b");
    assert_eq!(t.decode_token(2).unwrap(), "\n");
    assert_eq!(t.decode_token(3).unwrap(), "\t");
    assert_eq!(t.decode_token(4).unwrap(), "A");
    assert_eq!(t.decode_token(5).unwrap(), String::from_utf8_lossy(&[0xE9]).to_string());
    assert_eq!(t.decode_token(6).unwrap(), "");
    assert_eq!(t.decode_token(7).unwrap(), "");
    assert_eq!(t.decode(&[0, 1, 2, 8]).unwrap(), " a b\nx");
}

#[test]
fn decode_reports_the_first_invalid_id() {
    let t = tokenizer_of(&llama_file());
    match t.decode_token(42) {
        Err(MarkusError::Tokenizer(m)) => assert_eq!(m, "Invalid token id: 42"),
        _ => panic!("expected an error"),
    }
    match t.decode(&[7, 99, 100]) {
        Err(MarkusError::Tokenizer(m)) => assert_eq!(m, "Invalid token id: 99"),
        _ => panic!("expected an error"),
    }
}

#[test]
fn decoding_what_was_encoded_gives_the_text_back() {
    let mut b = header(3, 0, 2);
    kv_str_array(&mut b, "tokenizer.ggml.tokens", &["[BOS]", "h", "e", "l", "o", " ", "w", "r", "d", "ll", "wor"]);
    kv_u32(&mut b, "tokenizer.ggml.bos_token_id", 0);
    let t = tokenizer_of(&b);
    let text = "hello world";
    let ids = t.encode(text).unwrap();
    assert_eq!(ids[0], 0);
    assert_eq!(t.decode(&ids[1..]).unwrap(), text);
}

// ── Model metadata ────────────────────────────────────────────────────────────

#[test]
fn model_format_from_extension() {
    assert!(matches!(ModelFormat::from_extension("gguf"), ModelFormat::Gguf));
    assert!(matches!(ModelFormat::from_extension("GGUF"), ModelFormat::Gguf));
    assert!(matches!(ModelFormat::from_extension("SafeTensors"), ModelFormat::SafeTensors));
    assert!(matches!(ModelFormat::from_extension("bin"), ModelFormat::PyTorchBin));
    match ModelFormat::from_extension("ONNX") {
        ModelFormat::Unknown(s) => assert_eq!(s, "onnx"),
        _ => panic!("expected unknown"),
    }
    assert_eq!(ModelFormat::Gguf.label(), "GGUF");
    assert_eq!(ModelFormat::SafeTensors.label(), "SafeTensors");
    assert_eq!(ModelFormat::PyTorchBin.label(), "PyTorch");
    assert_eq!(ModelFormat::Unknown("pt".to_string()).label(), "pt");
    assert!(ModelFormat::Gguf.is_native());
    assert!(!ModelFormat::SafeTensors.is_native());
}

#[test]
fn model_info_from_gguf_header() {
    let l = parse(&llama_file());
    let info = ModelInfo::from_parts(PathBuf::from("/m/tiny.gguf"), "tiny.gguf".to_string(), "gguf", 12345);
    assert!(matches!(info.format, ModelFormat::Gguf));
    assert_eq!(info.size_bytes, 12345);
    assert!(info.architecture.is_none());
    assert!(ModelInfo::gguf_meta_fits(&l.meta));
    let info = info.with_gguf_meta(&l.meta);
    assert_eq!(info.path, PathBuf::from("/m/tiny.gguf"));
    assert_eq!(info.name, "tiny.gguf");
    assert_eq!(info.architecture.as_deref(), Some("llama"));
    assert_eq!(info.context_length, Some(2048));
    assert_eq!(info.embedding_length, Some(256));
    assert_eq!(info.layer_count, Some(4));
    assert_eq!(info.head_count, Some(8));
    assert_eq!(info.vocab_size, Some(9));
    assert_eq!(info.gguf_version, Some(3));
    assert_eq!(info.parameter_count, Some(4 * 256 * 4 * 4));
}

#[test]
fn parameter_estimate_overflow_is_detected() {
    let mut b = header(3, 0, 3);
    kv_str(&mut b, "general.architecture", "llama");
    kv_u64(&mut b, "llama.embedding_length", u64::MAX / 2);
    kv_u32(&mut b, "llama.block_count", 4);
    let l = parse(&b);
    assert!(!ModelInfo::gguf_meta_fits(&l.meta));
}

#[test]
fn architecture_families() {
    assert_eq!(model_family("llama").unwrap(), ModelFamily::Llama);
    assert_eq!(model_family("qwen2").unwrap(), ModelFamily::Llama);
    assert_eq!(model_family("gemma3").unwrap(), ModelFamily::Llama);
    assert_eq!(model_family("mamba").unwrap(), ModelFamily::Llama);
    assert_eq!(model_family("phi3").unwrap(), ModelFamily::Phi3);
    assert_eq!(model_family("phi").unwrap(), ModelFamily::Phi3);
    assert_eq!(model_family("mixtral").unwrap(), ModelFamily::Mistral);
    assert_eq!(model_family("mistral_nemo").unwrap(), ModelFamily::Mistral);
    match model_family("gpt2") {
        Err(MarkusError::UnsupportedArch { arch }) => assert_eq!(arch, "gpt2"),
        _ => panic!("expected unsupported"),
    }
    match model_family("Llama") {
        Err(MarkusError::UnsupportedArch { arch }) => assert_eq!(arch, "Llama"),
        _ => panic!("architecture names are case-sensitive"),
    }
}

#[test]
fn generation_run_stops_at_eos() {
    let mut b = header(3, 0, 2);
    kv_str_array(&mut b, "tokenizer.ggml.tokens", &["<s>", "</s>", "\u{2581}Hi", "<|x|>"]);
    kv_u32(&mut b, "tokenizer.ggml.eos_token_id", 1);
    let t = tokenizer_of(&b);
    let mut g = GenerationState::new(vec![0, 2], -1, 16);
    assert_eq!(g.next_input(), vec![0, 2]);
    assert_eq!(g.accept(2, &t), Some(" Hi".to_string()));
    assert_eq!(g.next_input(), vec![2]);
    assert_eq!(g.accept(3, &t), None);
    assert_eq!(g.accept(9, &t), None);
    assert!(!g.is_done());
    assert_eq!(g.accept(1, &t), None);
    assert!(g.is_done());
    assert_eq!(g.generated(), 4);
    assert_eq!(g.context(), &vec![0, 2, 2, 3, 9, 1]);
}

#[test]
fn generation_run_stops_at_the_budget() {
    let t = tokenizer_of(&llama_file());
    let mut g = GenerationState::new(vec![0], 2, 16);
    g.accept(7, &t);
    assert!(!g.is_done());
    g.accept(7, &t);
    assert!(g.is_done());
}

#[test]
fn encoding_gives_at_most_one_id_per_character() {
    let t = tokenizer_of(&llama_file());
    for text in ["hello", "hé wörld", "xyz", "hhhh", ""] {
        let ids = t.encode(text).unwrap();
        // the BOS id, then at most one id per character
        assert!(ids.len() - 1 <= text.chars().count());
        assert!(ids.iter().all(|&id| (id as usize) < t.vocab_size()));
    }
}

#[test]
fn parsed_header_layout() {
    let mut b = llama_file();
    tensor(&mut b, "output.weight", &[9], 0, 64);
    // the header now claims two tensors
    b[8..16].copy_from_slice(&2u64.to_le_bytes());
    let end = b.len() as u64;
    let l = parse(&b);
    assert_eq!(l.tensors.len() as u64, l.meta.tensor_count);
    assert_eq!(l.meta.kv.len() as u64, l.meta.kv_count);
    assert!(l.meta.version == 2 || l.meta.version == 3);
    assert_eq!(l.data_offset % 32, 0);
    assert!(end <= l.data_offset && l.data_offset < end + 32);
}

#[test]
fn generation_run_sends_tokens_then_one_final_event() {
    let mut b = header(3, 0, 2);
    kv_str_array(&mut b, "tokenizer.ggml.tokens", &["<s>", "</s>", "\u{2581}Hi", "!"]);
    kv_u32(&mut b, "tokenizer.ggml.eos_token_id", 1);
    let t = tokenizer_of(&b);
    let mut g = GenerationState::new(vec![0], 5, 16);
    assert_eq!(g.accept(2, &t), Some(" Hi".to_string()));
    assert_eq!(g.accept(3, &t), Some("!".to_string()));
    assert_eq!(g.accept(1, &t), None);
    assert!(g.is_done());
    match g.finish(12) {
        TokenEvent::Done { tokens_generated, elapsed_ms } => {
            assert_eq!(tokens_generated, 3);
            assert_eq!(elapsed_ms, 12);
        },
        _ => panic!("expected the end of the run"),
    }

    let mut h = GenerationState::new(vec![0], 5, 16);
    assert_eq!(h.accept(2, &t), Some(" Hi".to_string()));
    match h.fail("Sampling error: x".to_string()) {
        TokenEvent::Error(m) => assert_eq!(m, "Sampling error: x"),
        _ => panic!("expected an error"),
    }
    assert_eq!(h.generated(), 1);
}
