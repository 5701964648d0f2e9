[package]
name = "log_whisper"
version = "0.1.0"
edition = "2021"
publish = false

[dependencies]
regex = "1"
serde = { version = "1", features = ["derive"] }
serde_json = "1"
encoding_rs = "0.8"
chrono = "0.4"
log = "0.4"
