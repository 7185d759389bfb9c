[package]
name = "et_timestamp"
version = "0.1.0"
edition = "2021"
publish = false

[dependencies]
rustc-serialize = "0.3"
serde = { version = "1", features = ["derive"] }
time = "0.1"
