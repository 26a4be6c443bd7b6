[package]
name = "server_bootstrap"
version = "0.1.0"
edition = "2021"
publish = false

[dependencies]
serde_json = "1"
serde = { version = "1", features = ["derive"] }
anyhow = "1"
walkdir = "2"
pathdiff = "*"
console = "*"
notify = "*"
tokio = { version = "1", features = ["rt", "macros", "fs", "io-util"] }
reqwest = { version = "*", default-features = false, features = ["json"] }
