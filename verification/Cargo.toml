[package]
name = "blobshare"
version = "0.1.0"
edition = "2021"
publish = false

[dependencies]
aes-gcm = "*"
base64 = "*"
rand = "*"
clap = { version = "*", features = ["derive"] }
tokio = { version = "*", features = ["full"] }
tokio-util = { version = "*", features = ["io"] }
futures-util = "*"
axum = "*"
reqwest = { version = "*", default-features = false }
