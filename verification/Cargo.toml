[package]
name = "kvstore"
version = "0.1.0"
edition = "2021"
publish = false

[dependencies]
axum = "*"
bytes = "*"
image = "*"
mime-db = "*"
tokio = { version = "*", features = ["full"] }
webp = "*"
zstd = "*"
