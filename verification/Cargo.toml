[package]
name = "moh"
version = "0.1.0"
edition = "2021"
publish = false

[dependencies]
bytes = "=1.12.1"
chrono = "=0.4.45"
clap = { version = "=4.6.7", features = ["derive"] }
crossterm = { version = "=0.29.0", features = ["event-stream"] }
directories = "=6.0.0"
futures = "=0.3.34"
humantime-serde = "=1.1.1"
nix = { version = "=0.31.3", features = ["fs", "user", "process"] }
pulldown-cmark = { version = "=0.13.6", default-features = false }
ratatui = { version = "=0.30.2", default-features = false, features = ["crossterm", "unstable-rendered-line-info"] }
reqwest = { version = "=0.13.5", default-features = false, features = ["json", "stream"] }
rig-core = { version = "=0.40.0", default-features = false }
serde = { version = "=1.0.229", features = ["derive"] }
serde_json = "=1.0.154"
tempfile = "=3.27.0"
thiserror = "=2.0.21"
tokio = { version = "=1.54.1", features = ["full"] }
tokio-util = "=0.7.20"
toml = "=1.1.8"
unicode-segmentation = "=1.13.3"
unicode-width = "=0.2.3"
