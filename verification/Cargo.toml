[package]
name = "sim-core"
version = "0.1.0"
edition = "2021"
publish = false

[dependencies]
axum = "0.7"
num-complex = "0.4"
serde = { version = "1", features = ["derive"] }
tokio = { version = "1", features = ["macros", "net", "rt-multi-thread"] }
