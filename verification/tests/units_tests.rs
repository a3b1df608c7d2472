use markus::model::ModelInfo;
use markus::system::SystemInfo;
use markus::units::{bytes_display, mb_display};

fn std_mb(mb: u64) -> String {
    if mb >= 1024 {
        format!("{:.1}GB", mb as f64 / 1024.0)
    } else {
        format!("{}MB", mb)
    }
}

fn std_bytes(b: u64) -> String {
    let gb = b as f64 / 1024.0 / 1024.0 / 1024.0;
    let mb = b as f64 / 1024.0 / 1024.0;
    if gb >= 1.0 {
        format!("{:.1}GB", gb)
    } else {
        format!("{:.0}MB", mb)
    }
}

#[test]
fn memory_amounts_match_float_formatting() {
    for mb in 0u64..70_000 {
        assert_eq!(mb_display(mb), std_mb(mb), "{} MB", mb);
    }
    for mb in [1280u64, 1792, 3328, 16384, 16640, 65280, 1 << 40, (1 << 53) - 1, 1 << 53, (1 << 53) + 1,
        (1 << 53) + 3, (1 << 54) + 2, (1 << 54) + 6, 1 << 63, u64::MAX - 1, u64::MAX] {
        assert_eq!(mb_display(mb), std_mb(mb), "{} MB", mb);
    }
}

#[test]
fn ties_round_to_even() {
    assert_eq!(mb_display(1280), "1.2GB");
    assert_eq!(mb_display(1792), "1.8GB");
    assert_eq!(mb_display(16384), "16.0GB");
    assert_eq!(mb_display(1023), "1023MB");
}

#[test]
fn file_sizes_match_float_formatting() {
    let mut b: u64 = 0;
    while b < (3u64 << 30) {
        assert_eq!(bytes_display(b), std_bytes(b), "{} bytes", b);
        b += 12_345;
    }
    for b in [0u64, 1, (1 << 19) - 1, 1 << 19, 3 << 19, 5 << 19, (1 << 30) - 1, 1 << 30, (1 << 30) + (1 << 28),
        (5 << 28), 7 << 28, 1 << 53, (1 << 53) + 1, (1 << 60) + 12345, u64::MAX] {
        assert_eq!(bytes_display(b), std_bytes(b), "{} bytes", b);
    }
}

#[test]
fn system_and_model_display() {
    let s = SystemInfo {
        cpu_model: String::new(),
        cpu_cores: 1,
        cpu_threads: 1,
        total_ram_mb: 16384,
        available_ram_mb: 900,
        gpu_info: vec![],
        os: String::new(),
        arch: String::new(),
    };
    assert_eq!(s.ram_display(), "16.0GB");
    assert_eq!(s.available_ram_display(), "900MB");
    let m = ModelInfo::from_parts(std::path::PathBuf::from("/m.gguf"), "m.gguf".to_string(), "gguf", 4_683_073_536);
    assert_eq!(m.size_display(), "4.4GB");
}
