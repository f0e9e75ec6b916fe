[package]
name = "ghost_speaker"
version = "0.1.0"
edition = "2021"
publish = false

[dependencies]
encoding_rs = "=0.8.44"
serde = { version = "=1.0.229", features = ["derive"] }
serde_json = "=1.0.154"
serde_yaml = "0.9"
tokio = { version = "=1.54.1", features = ["rt-multi-thread", "time", "sync"] }
reqwest = { version = "=0.11.27", default-features = false }
rodio = { version = "=0.17.3", default-features = false, features = ["wav"] }
sysinfo = "=0.29.11"
log = "=0.4.35"
simplelog = "=0.12.2"
winapi = { version = "=0.3.9", features = ["winbase"] }
