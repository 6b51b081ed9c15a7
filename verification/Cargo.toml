[package]
name = "codex-patcher"
version = "0.1.0"
edition = "2021"
publish = false

[dependencies]
anyhow = "1"
chrono = { version = "0.4", features = ["serde"] }
clap = { version = "4", features = ["derive"] }
crossterm = "*"
dialoguer = "*"
directories = "*"
fs2 = "0.4"
hex = "0.4"
libc = "0.2"
ratatui = "0.29"
regex = "1"
reqwest = { version = "0.12", default-features = false, features = ["blocking", "json", "rustls-tls"] }
semver = "1"
serde = { version = "1", features = ["derive"] }
serde_json = "1"
sha2 = "0.10"
signal-hook = "0.3"
tempfile = "3"
toml = "0.8"
unicode-normalization = "0.1"
uuid = { version = "1", features = ["v4", "serde"] }
wait-timeout = "0.2"
walkdir = "2"
