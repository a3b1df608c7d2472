use markus::download::{model_aliases, DownloadSpec};
use markus::error::MarkusError;

#[test]
fn every_alias_downloads_its_repository_file() {
    let aliases = model_aliases();
    assert_eq!(aliases.len(), 21);
    for (alias, repo, file) in aliases {
        let d = DownloadSpec::from_input(alias).unwrap();
        assert_eq!(d.url, format!("https://huggingface.co/{}/resolve/main/{}", repo, file));
        assert_eq!(d.filename, file);
    }
}

#[test]
fn readme_pull_example() {
    let d = DownloadSpec::from_input("llama3.2").unwrap();
    assert_eq!(
        d.url,
        "https://huggingface.co/bartowski/Llama-3.2-3B-Instruct-GGUF/resolve/main/Llama-3.2-3B-Instruct-Q4_K_M.gguf"
    );
    assert_eq!(d.filename, "Llama-3.2-3B-Instruct-Q4_K_M.gguf");
}

#[test]
fn direct_urls() {
    let d = DownloadSpec::from_input("https://example.com/models/tiny.gguf?download=true").unwrap();
    assert_eq!(d.url, "https://example.com/models/tiny.gguf?download=true");
    assert_eq!(d.filename, "tiny.gguf");
    let d = DownloadSpec::from_input("http://host/a/b.bin").unwrap();
    assert_eq!(d.filename, "b.bin");
    let d = DownloadSpec::from_input("https://host/dir/").unwrap();
    assert_eq!(d.filename, "");
}

#[test]
fn hf_shorthand() {
    let d = DownloadSpec::from_input("hf:Qwen/Qwen3-8B-GGUF:Qwen3-8B-Q8_0.gguf").unwrap();
    assert_eq!(d.url, "https://huggingface.co/Qwen/Qwen3-8B-GGUF/resolve/main/Qwen3-8B-Q8_0.gguf");
    assert_eq!(d.filename, "Qwen3-8B-Q8_0.gguf");
    let d = DownloadSpec::from_input("hf:a/b:c:d.gguf").unwrap();
    assert_eq!(d.filename, "c:d.gguf");
}

#[test]
fn hf_shorthand_needs_a_file() {
    match DownloadSpec::from_input("hf:owner/repo") {
        Err(MarkusError::Download(m)) => assert_eq!(m, "Invalid hf: format. Use hf:owner/repo:filename.gguf"),
        _ => panic!("expected a download error"),
    }
}

#[test]
fn unknown_models_are_refused() {
    match DownloadSpec::from_input("gpt-5") {
        Err(MarkusError::Download(m)) => {
            assert_eq!(m, "Unknown model 'gpt-5'. Use an alias, hf:repo:file, or a direct URL.")
        },
        _ => panic!("expected a download error"),
    }
    assert!(DownloadSpec::from_input("LLAMA3.2").is_err());
}
