[package]
name = "ms9k"
version = "0.1.0"
edition = "2021"
publish = false

[dependencies]
json = "0.12"
rand = "0.8"
serde = { version = "1", features = ["derive"] }
serde_json = "1"
reqwest = { version = "0.11", default-features = false, features = ["rustls-tls"] }
tokio = { version = "1", features = ["rt-multi-thread", "macros", "sync"] }
id3 = "1"
id3-image = "*"
image = "0.24"
dirs = "5"
