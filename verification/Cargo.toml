[package]
name = "rmux_jump"
version = "0.1.0"
edition = "2021"
publish = false

[dependencies]
anyhow = "=1.0.104"
clap = { version = "=4.6.7", features = ["derive"] }
crossterm = "=0.29.0"
ratatui = "=0.30.2"
rmux-client = "=0.6.1"
rmux-proto = "=0.6.1"
rmux-sdk = "=0.6.1"
# rmux-client 0.6.1 uses a module that later rustix releases no longer export.
rustix = "=1.1.4"
tokio = { version = "=1.54.1", features = ["rt", "net", "time", "io-util"] }
