[package]
name = "tpbuffers"
version = "0.1.0"
edition = "2021"
publish = false

[dependencies]
convert_case = "0.6"
clap = { version = "3.2", features = ["derive"] }
serde = { version = "1", features = ["derive"] }
serde_yaml = "0.9"
env_logger = "0.10"
log = "0.4"
