[package]
name = "rustand"
version = "0.1.0"
edition = "2021"
publish = false

[dependencies]
tokio = { version = "1", features = ["rt", "sync"] }
async-std = "1"
futures-lite = "2"
arbitrary = { version = "1", features = ["derive"] }
