[package]
name = "tmux_backup"
version = "0.1.0"
edition = "2021"
publish = false

[dependencies]
chrono = "=0.4.45"
regex = "=1.13.1"
clap = { version = "=4.6.7", features = ["derive"] }
clap_complete = "4"
serde = { version = "=1.0.229", features = ["derive"] }
serde_json = "=1.0.154"
tar = "=0.4.46"
zstd = "=0.14.3"
tempfile = "=3.27.0"
smol = "=2.0.2"
futures = "=0.3.34"
async-fs = "=2.2.0"
si-scale = "=0.3.1"
