[package]
name = "guard_core"
version = "0.1.0"
edition = "2021"
publish = false

[dependencies]
steamguard = "=0.18.4"
reqwest = { version = "=0.12.28", features = ["blocking"] }
serde = { version = "=1.0.229", features = ["derive"] }
serde_json = "=1.0.151"
gethostname = "=1.1.0"
