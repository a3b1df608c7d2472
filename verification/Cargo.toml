[package]
name = "markus"
version = "0.1.0"
edition = "2021"
publish = false

[dependencies]
anyhow = "*"
axum = { version = "*", default-features = false, features = ["tokio", "http1", "json"] }
byteorder = "*"
candle-core = "*"
candle-transformers = "*"
clap = { version = "*", features = ["derive"] }
crossterm = "0.28"
dirs = "*"
futures-util = "*"
indicatif = "*"
num_cpus = "*"
ratatui = "0.29"
reqwest = { version = "0.12", default-features = false }
serde = { version = "*", features = ["derive"] }
serde_json = "*"
sysinfo = "*"
thiserror = "*"
tokio = { version = "*", features = ["macros", "rt-multi-thread", "sync", "fs", "io-util", "net", "time"] }
tokio-stream = "*"
toml = "*"
tower-http = { version = "*", features = ["cors", "trace"] }
tracing = "*"
tracing-subscriber = { version = "*", default-features = false, features = ["std", "fmt", "env-filter"] }
uuid = { version = "*", features = ["v4"] }
walkdir = "*"
