[package]
name = "rtt_collector"
version = "0.1.0"
edition = "2021"
publish = false

[dependencies]
anyhow = "*"
ctrlc = "*"
log = "*"
object = { version = "*", features = ["write"] }
probe-rs = "*"
serde = { version = "*", features = ["derive"] }
serde_json = "*"
systemd-journal-logger = "*"
