[package]
name = "flatpak-smoke"
version = "0.1.2"
edition = "2021"
publish = false

[dependencies]
aes = "0.8"
anyhow = "1"
clap = { version = "4", features = ["derive"] }
libc = "0.2"
md-5 = "0.10"
num-bigint = "0.4"
serde = { version = "1", features = ["derive"] }
serde_json = "1"
serde_yaml_ng = "0.10"
tempfile = "3"
tracing-subscriber = { version = "0.3", features = ["env-filter"] }
