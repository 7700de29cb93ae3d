[package]
name = "helix_verified"
version = "0.1.0"
edition = "2021"
publish = false

[dependencies]
sha2 = "=0.10.9"
serde = { version = "=1.0.229", features = ["derive"] }
serde_json = "=1.0.154"
url = "=2.5.8"
uuid = { version = "=1.29.0", features = ["v4"] }
chrono = { version = "=0.4.45", default-features = false, features = ["clock", "std"] }
tokio = { version = "=1.54.1", features = ["sync", "rt", "macros"] }
thiserror = "=1.0.69"
regex = "1"
