[package]
name = "live_registry"
version = "0.1.0"
edition = "2021"
publish = false

[dependencies]
axum = { version = "*", features = ["ws"] }
futures-util = "*"
serde_json = "*"
tokio = { version = "*", features = ["sync", "macros", "rt-multi-thread", "net"] }
tower-http = { version = "*", features = ["fs", "cors", "compression-br", "compression-gzip", "normalize-path"] }
