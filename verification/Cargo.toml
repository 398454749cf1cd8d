[package]
name = "wasi_test_runner"
version = "0.1.0"
edition = "2021"
publish = false

[dependencies]
relative-path = "1.9"
serde = { version = "1", features = ["derive"] }
serde_json = "1"
