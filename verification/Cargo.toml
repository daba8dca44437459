[package]
name = "ccauto"
version = "0.1.0"
edition = "2021"
publish = false

[dependencies]
regex = "1"
serde = { version = "1", features = ["derive"] }
serde_yml = "*"
serde_yaml = "0.9"
serde_json = "1"
anyhow = "1"
thiserror = "*"
tokio = { version = "1", features = ["full"] }
clap = { version = "4", features = ["derive"] }
tracing = "0.1"
tracing-subscriber = "0.3"
portable-pty = "*"
vt100 = "*"
bytes = "1"
notify = "*"
dirs = "*"
