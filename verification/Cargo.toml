[package]
name = "balatro-mod-index"
version = "0.1.0"
edition = "2021"
publish = false

[dependencies]
bytes = "=1.12.1"
cached = { version = "=0.55.1", default-features = false }
futures = "=0.3.34"
log = "=0.4.34"
reqwest = { version = "=0.13.5", default-features = false, features = ["json"] }
serde = { version = "=1.0.229", features = ["derive"] }
serde_json = "=1.0.154"
zip = { version = "=9.1.0", default-features = false, features = ["deflate"] }
