[package]
name = "chatml"
version = "0.1.0"
edition = "2021"
publish = false

[dependencies]
serde_json = "*"
serde = { version = "*", features = ["derive"] }
tokio = { version = "*", features = ["rt-multi-thread", "macros"] }
axum = "*"
axum-server = { version = "*", features = ["tls-rustls"] }
reqwest = { version = "*", default-features = false, features = ["json", "rustls-tls"] }
futures = "*"
async-stream = "*"
async-trait = "*"
rand = { version = "*", features = ["small_rng"] }
tracing = "*"
tracing-subscriber = "*"
