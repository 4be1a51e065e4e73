[package]
name = "caststream"
version = "0.1.0"
edition = "2021"
publish = false

[dependencies]
anyhow = "=1.0.104"
chrono = "=0.4.45"
clap = { version = "=4.6.7", features = ["derive"] }
gstreamer = "0.23"
gstreamer-app = "0.23"
nix = { version = "=0.31.3", features = ["poll"] }
signal-hook = "=0.3.18"
tracing = "=0.1.44"
tracing-subscriber = { version = "=0.3.23", features = ["env-filter"] }
