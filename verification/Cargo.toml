[package]
name = "aot_experiments"
version = "0.1.0"
edition = "2021"
publish = false

[dependencies]
pelite = "0.10"
binary_rw = "*"
anyhow = "1"
thiserror = "*"
clap = { version = "4", features = ["derive"] }
serde = { version = "1", features = ["derive"] }
serde_json = "1"
