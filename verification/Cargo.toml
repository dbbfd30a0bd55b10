[package]
name = "ycbust"
version = "0.4.1"
edition = "2021"
publish = false

[dependencies]
anyhow = "1"
thiserror = "2"
clap = { version = "4", features = ["derive"] }
tokio = { version = "1", features = ["rt-multi-thread", "macros"] }
reqwest = { version = "0.12", default-features = false, features = ["stream", "rustls-tls"] }
serde = { version = "1", features = ["derive"] }
serde_json = "1"
flate2 = "1"
tar = "0.4"
futures-util = { version = "0.3", features = ["io"] }
indicatif = "0.17"
async-compression = { version = "0.4", features = ["futures-io", "gzip"] }
async-tar = { version = "=0.5.1", default-features = false }
rust-s3 = { version = "0.35", default-features = false, features = ["tokio-rustls-tls", "fail-on-err"] }
