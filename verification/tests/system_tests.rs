use markus::system::{gpus_from_nvidia_smi, inference_process_name, GpuBackend, GpuInfo, SystemInfo};

fn system(gpus: Vec<GpuInfo>) -> SystemInfo {
    SystemInfo {
        cpu_model: "Test CPU".to_string(),
        cpu_cores: 4,
        cpu_threads: 8,
        total_ram_mb: 16384,
        available_ram_mb: 8192,
        gpu_info: gpus,
        os: "linux".to_string(),
        arch: "x86_64".to_string(),
    }
}

#[test]
fn reads_nvidia_smi_lines() {
    let text = "NVIDIA GeForce RTX 4090, 24564, 23012\nTesla T4, 15360, 15000\n";
    let gpus = gpus_from_nvidia_smi(text);
    assert_eq!(gpus.len(), 2);
    assert_eq!(gpus[0].name, "NVIDIA GeForce RTX 4090");
    assert_eq!(gpus[0].vram_total_mb, Some(24564));
    assert_eq!(gpus[0].vram_free_mb, Some(23012));
    assert_eq!(gpus[0].backend, GpuBackend::Cuda);
    assert_eq!(gpus[1].name, "Tesla T4");
    assert_eq!(gpus[1].vram_total_mb, Some(15360));
    assert_eq!(gpus[1].vram_free_mb, Some(15000));
}

#[test]
fn nvidia_smi_crlf_and_missing_fields() {
    let gpus = gpus_from_nvidia_smi("A100 , [N/A], 12\r\nlonely\r\n\nx,1,2,3");
    assert_eq!(gpus.len(), 4);
    assert_eq!(gpus[0].name, "A100");
    assert_eq!(gpus[0].vram_total_mb, None);
    assert_eq!(gpus[0].vram_free_mb, Some(12));
    assert_eq!(gpus[1].name, "lonely");
    assert_eq!(gpus[1].vram_total_mb, None);
    assert_eq!(gpus[1].vram_free_mb, None);
    assert_eq!(gpus[2].name, "");
    // the third field keeps the rest of the line, which is no number
    assert_eq!(gpus[3].name, "x");
    assert_eq!(gpus[3].vram_total_mb, Some(1));
    assert_eq!(gpus[3].vram_free_mb, None);
}

#[test]
fn nvidia_smi_lines_split_as_std_does() {
    for text in ["", "\n", "a", "a\n", "a\r\nb", "a\rb\r", "\r\n\r\n", "g,1,2\r"] {
        let gpus = gpus_from_nvidia_smi(text);
        let lines: Vec<&str> = text.lines().collect();
        assert_eq!(gpus.len(), lines.len(), "input {:?}", text);
        for (g, l) in gpus.iter().zip(lines) {
            let parts: Vec<&str> = l.splitn(3, ',').collect();
            assert_eq!(g.name, parts[0].trim());
            assert_eq!(g.vram_total_mb, parts.get(1).and_then(|v| v.trim().parse::<u64>().ok()));
            assert_eq!(g.vram_free_mb, parts.get(2).and_then(|v| v.trim().parse::<u64>().ok()));
        }
    }
}

#[test]
fn recognises_inference_processes() {
    assert_eq!(inference_process_name("llama-server"), Some("llama-server".to_string()));
    assert_eq!(inference_process_name("Ollama"), Some("ollama".to_string()));
    assert_eq!(inference_process_name("/usr/bin/LLAMA-CLI"), Some("/usr/bin/llama-cli".to_string()));
    assert_eq!(inference_process_name("markus-server-2"), Some("markus-server-2".to_string()));
    assert_eq!(inference_process_name("bash"), None);
    assert_eq!(inference_process_name("llama"), None);
}

#[test]
fn has_gpu_when_any_is_listed() {
    assert!(!system(vec![]).has_gpu());
    assert!(system(gpus_from_nvidia_smi("T4, 1, 1")).has_gpu());
}
