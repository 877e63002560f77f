[package]
name = "bge-embed-rs"
version = "0.1.0"
edition = "2021"
publish = false

[dependencies]
anyhow = "=1.0.104"
axum = { version = "=0.8.9", default-features = false, features = ["tokio", "http1", "json"] }
candle-core = "=0.9.2"
candle-nn = "=0.9.2"
candle-transformers = "=0.9.2"
egui = "0.36"
hf-hub = { version = "=0.4.3", default-features = false, features = ["ureq"] }
serde = { version = "=1.0.229", features = ["derive"] }
serde_json = "=1.0.154"
tokenizers = { version = "=0.21.4", default-features = false, features = ["onig"] }
tokio = { version = "=1.54.1", features = ["rt-multi-thread", "macros", "net"] }
ureq = { version = "=2.12.1", features = ["json"] }
