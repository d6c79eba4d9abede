[package]
name = "data_dispatcher"
version = "0.1.0"
edition = "2021"
publish = false

[dependencies]
anyhow = "1"
clap = { version = "4", features = ["derive"] }
encoding_rs = "0.8"
ron = "*"
serde = { version = "1", features = ["derive"] }
