[package]
name = "pb_std_rules"
version = "0.1.0"
edition = "2021"
publish = false

[dependencies]
anyhow = "*"
async-compression = { version = "*", default-features = false, features = ["brotli", "gzip", "xz", "zstd", "futures-io"] }
content_disposition = "*"
futures = "*"

[dev-dependencies]
tar = "*"
