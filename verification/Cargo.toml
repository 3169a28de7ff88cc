[package]
name = "control_api"
version = "0.1.0"
edition = "2021"
publish = false

[dependencies]
chrono = { version = "0.4", default-features = false, features = ["clock", "std"] }
log = "0.4"
once_cell = "1"
reqwest = { version = "0.12", default-features = false }
serde_json = "1"
tokio = { version = "1", features = ["rt", "sync"] }
