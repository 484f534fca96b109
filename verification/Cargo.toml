[package]
name = "ambient_crt"
version = "0.1.0"
edition = "2021"
publish = false

[dependencies]
anyhow = "=1.0.104"
axum = "=0.8.9"
enigo = "=0.6.1"
futures = "=0.3.34"
futures-util = "=0.3.34"
once_cell = "=1.21.4"
rust-embed = "=8.13.0"
serde = { version = "=1.0.229", features = ["derive"] }
simplelog = { version = "=0.12.2", features = ["paris"] }
tokio = { version = "=1.54.1", features = ["full"] }
tokio-stream = { version = "=0.1.19", features = ["fs"] }
tokio-util = { version = "=0.7.20", features = ["io"] }
tower-http = { version = "=0.7.1", features = ["fs"] }
