use std::path::PathBuf;

use markus::model::ModelFormat;

use markus::scanner::{cache_is_fresh, order_models, scan_roots, ModelScanner, RootBase, ScanEntry, CACHE_TTL_SECS, MIN_MODEL_SIZE};

fn entry(ext: &str, size: u64, canonical: Option<&str>) -> ScanEntry {
    ScanEntry {
        extension: ext.to_string(),
        size,
        canonical: canonical.map(|c| c.as_bytes().to_vec()),
    }
}

const BIG: u64 = 20 * 1024 * 1024;

#[test]
fn keeps_model_files_gguf_first() {
    let es = vec![
        entry("safetensors", BIG, Some("/a")),
        entry("gguf", BIG, Some("/b")),
        entry("txt", BIG, Some("/c")),
        entry("bin", BIG, Some("/d")),
        entry("gguf", BIG, Some("/e")),
    ];
    assert_eq!(order_models(&es), vec![1, 4, 0, 3]);
}

#[test]
fn each_group_is_ordered_by_size_largest_first() {
    let es = vec![
        entry("gguf", BIG, Some("/small.gguf")),
        entry("bin", BIG, Some("/a.bin")),
        entry("gguf", 3 * BIG, Some("/large.gguf")),
        entry("safetensors", 2 * BIG, Some("/b.safetensors")),
        entry("gguf", 2 * BIG, Some("/mid.gguf")),
        entry("gguf", 2 * BIG, Some("/mid2.gguf")),
    ];
    // GGUF by size (equal sizes in walk order), then the others by size
    assert_eq!(order_models(&es), vec![2, 4, 5, 0, 3, 1]);
}

#[test]
fn small_files_are_not_models() {
    let es = vec![entry("gguf", MIN_MODEL_SIZE - 1, Some("/a")), entry("gguf", MIN_MODEL_SIZE, Some("/b"))];
    assert_eq!(order_models(&es), vec![1]);
}

#[test]
fn second_copies_of_a_file_are_dropped() {
    let es = vec![
        entry("gguf", BIG, Some("/models/x.gguf")),
        entry("gguf", BIG, Some("/models/x.gguf")),
        entry("gguf", BIG, None),
        entry("gguf", BIG, None),
        entry("bin", BIG, Some("/models/x.gguf")),
    ];
    // unresolved paths are always kept; the .bin resolving to a listed file is dropped
    assert_eq!(order_models(&es), vec![0, 2, 3]);
}

#[test]
fn a_skipped_small_file_does_not_hide_its_copy() {
    let es = vec![entry("gguf", 10, Some("/same")), entry("gguf", BIG, Some("/same"))];
    assert_eq!(order_models(&es), vec![1]);
}

#[test]
fn extension_case_matters_only_for_ordering() {
    // "GGUF" counts as a model file, but only an exact "gguf" is put first
    let es = vec![entry("GGUF", BIG, Some("/a")), entry("bin", BIG, Some("/b")), entry("gguf", BIG, Some("/c"))];
    assert_eq!(order_models(&es), vec![2, 0, 1]);
}

#[test]
fn cache_freshness() {
    assert!(cache_is_fresh(0, 0));
    assert!(cache_is_fresh(CACHE_TTL_SECS - 1, 999_999_999));
    assert!(cache_is_fresh(CACHE_TTL_SECS, 0));
    assert!(!cache_is_fresh(CACHE_TTL_SECS, 1));
    assert!(!cache_is_fresh(CACHE_TTL_SECS + 1, 0));
    assert_eq!(CACHE_TTL_SECS, 6 * 60 * 60);
    assert_eq!(MIN_MODEL_SIZE, 10 * 1024 * 1024);
}

#[test]
fn scanner_keeps_its_cache_path() {
    let s = ModelScanner::new(PathBuf::from("/tmp/cache/model_scan.json"));
    assert_eq!(s.scan_cache_path(), &PathBuf::from("/tmp/cache/model_scan.json"));
}

#[test]
fn scan_roots_cover_the_known_stores() {
    let roots = scan_roots();
    assert_eq!(roots.len(), 13);
    assert_eq!(roots[0].base, RootBase::MarkusModels);
    assert_eq!(roots[1].base, RootBase::Cache);
    assert_eq!(roots[1].relative, "huggingface/hub");
    assert_eq!(roots[3].relative, ".ollama/models");
    assert_eq!(roots[6].base, RootBase::Data);
    assert_eq!(roots[6].relative, "lm-studio/models");
    assert_eq!(roots[12].base, RootBase::Absolute);
    assert_eq!(roots[12].relative, "/data/models");
}

#[test]
fn format_from_extension_ignores_case() {
    assert!(matches!(ModelFormat::from_extension("GGUF"), ModelFormat::Gguf));
    assert!(matches!(ModelFormat::from_extension("SafeTensors"), ModelFormat::SafeTensors));
    assert!(matches!(ModelFormat::from_extension("BIN"), ModelFormat::PyTorchBin));
    match ModelFormat::from_extension("ONNX") {
        ModelFormat::Unknown(s) => assert_eq!(s, "onnx"),
        _ => panic!("expected an unknown format"),
    }
}
