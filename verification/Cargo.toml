[package]
name = "image_pipeline"
version = "0.1.0"
edition = "2021"
rust-version = "1.95"
publish = false

[dependencies]
image = "=0.25.10"
imageoptimize = { version = "=0.6.0", default-features = false }
lru = "=0.19.0"
base64 = "=0.23.1"
urlencoding = "=2.1.3"
regex = "=1.13.1"
dssim = "=3.5.1"
rgb = "=0.8.53"
axum = { version = "=0.8.9", features = ["multipart"] }
tokio = { version = "=1.54.1", features = ["full"] }
reqwest = { version = "=0.13.5", default-features = false }
serde = { version = "=1.0.229", features = ["derive"] }
mime = "=0.3.17"
mime_guess = "=2.0.5"
