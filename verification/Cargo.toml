[package]
name = "gateway_core"
version = "0.1.0"
edition = "2021"
publish = false

[dependencies]
serde_json = "1"
actix-web = { version = "4", default-features = false, features = ["macros", "rustls"] }
anyhow = "1"
derive_builder = "0.12"
futures-util = "0.3"
reqwest = { version = "0.11", default-features = false, features = ["json", "stream", "rustls-tls"] }
rustls-pemfile = "1"
serde = { version = "1", features = ["derive"] }
tokio = { version = "1", features = ["full"] }
tokio-rustls = "0.23"
