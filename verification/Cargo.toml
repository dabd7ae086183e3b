[package]
name = "flowerchat"
version = "0.1.0"
edition = "2021"
publish = false

[dependencies]
zstd = "=0.13.3"
crc32fast = "=1.5.3"
rusqlite = { version = "=0.40.2", features = ["bundled"] }
anyhow = "1"
thiserror = "2"
