[package]
name = "keirox"
version = "0.1.0"
edition = "2021"
publish = false

[dependencies]
twox-hash = "1.6"
sha2 = "0.10"
crc32fast = "1"
md-5 = "0.10"
aes-gcm = "0.10"
rand = "0.8"
bytes = "1"
serde = { version = "1", features = ["derive"] }
thiserror = "1"
async-trait = "0.1"
tokio = { version = "1", features = ["sync", "rt", "macros"] }
arrow = { version = "*", default-features = false }
parquet = { version = "*", default-features = false, features = ["arrow", "snap"] }
