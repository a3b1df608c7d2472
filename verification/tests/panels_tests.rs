use std::path::PathBuf;

use markus::config::MarkusConfig;
use markus::model::ModelInfo;
use markus::panels::{dashboard, model_detail, PanelLine};
use markus::system::{GpuBackend, GpuInfo, SystemInfo};

fn show(rows: &[PanelLine]) -> Vec<String> {
    rows.iter()
        .map(|r| match r {
            PanelLine::Blank => String::new(),
            PanelLine::Heading(t) => format!("# {}", t.trim()),
            PanelLine::Note(t) => format!("~ {}", t.trim()),
            PanelLine::Field { label, value } => format!("{} {}", label, value),
            PanelLine::Billions { label, count } => format!("{} {}e0", label, count),
        })
        .collect()
}

#[test]
fn model_detail_rows() {
    let mut m = ModelInfo::from_parts(PathBuf::from("/m/q.gguf"), "q.gguf".to_string(), "GGUF", 3 * 1024 * 1024 * 1024);
    assert_eq!(show(&model_detail(&m)), vec!["Name: q.gguf", "Format: GGUF", "Size: 3.0GB"]);
    m.architecture = Some("qwen2".to_string());
    m.context_length = Some(32768);
    m.head_count = Some(16);
    m.vocab_size = Some(151936);
    m.parameter_count = Some(494_000_000);
    m.gguf_version = Some(3);
    assert_eq!(
        show(&model_detail(&m)),
        vec![
            "Name: q.gguf",
            "Format: GGUF",
            "Size: 3.0GB",
            "Architecture: qwen2",
            "Context: 32768 tokens",
            "Heads: 16",
            "Vocab: 151936 tokens",
            "Parameters: 494000000e0",
            "GGUF Version: 3",
        ]
    );
}

#[test]
fn dashboard_rows() {
    assert_eq!(show(&dashboard(None)), vec!["~ Loading system info..."]);
    let mut info = SystemInfo {
        cpu_model: "Test CPU".to_string(),
        cpu_cores: 4,
        cpu_threads: 8,
        total_ram_mb: 16384,
        available_ram_mb: 900,
        gpu_info: vec![],
        os: "linux".to_string(),
        arch: "x86_64".to_string(),
    };
    let plain = show(&dashboard(Some(&info)));
    assert_eq!(
        plain,
        vec![
            "# ─── CPU ──────────────────────────",
            "Model: Test CPU",
            "Physical cores: 4",
            "Logical threads: 8",
            "",
            "# ─── Memory ────────────────────────",
            "Total RAM: 16.0GB",
            "Available RAM: 900MB",
            "",
            "# ─── Platform ─────────────────────",
            "OS: linux",
            "Architecture: x86_64",
        ]
    );
    info.gpu_info = vec![
        GpuInfo { name: "A".to_string(), vram_total_mb: Some(8192), vram_free_mb: None, backend: GpuBackend::Cuda },
        GpuInfo { name: "B".to_string(), vram_total_mb: None, vram_free_mb: None, backend: GpuBackend::Cuda },
    ];
    let with_gpu = show(&dashboard(Some(&info)));
    assert_eq!(with_gpu[8..13], ["", "# ─── GPU ──────────────────────────", "Name: A", "VRAM: 8192MB", "Name: B"]);
    assert_eq!(with_gpu.len(), plain.len() + 5);
}

#[test]
fn default_config_uses_at_least_one_thread() {
    let c = MarkusConfig::default();
    assert!(c.threads >= 1);
    assert_eq!(c.ctx_size, 4096);
    assert_eq!(c.server_port, 8080);
}
