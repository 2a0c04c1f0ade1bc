[package]
name = "emergent"
version = "0.1.0"
edition = "2021"
publish = false

[dependencies]
serde = { version = "1", features = ["derive"] }
serde_json = "1"
log = "0.4"
env_logger = "*"
clap = "2"
crossbeam-channel = "*"
shh = "1"
cargo_metadata = "*"
notify = "*"
