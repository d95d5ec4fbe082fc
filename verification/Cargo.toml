[package]
name = "rstun"
version = "0.1.0"
edition = "2021"
publish = false

[dependencies]
ahash = "0.8"
anyhow = "1"
backon = "1"
byte-pool = "*"
clap = { version = "4", features = ["derive"] }
libc = "0.2"
log = "0.4"
mimalloc = "0.1"
parking_lot = "0.12"
postcard = { version = "1", features = ["use-std"] }
quinn = "0.11"
rcgen = "0.14"
rs-utilities = "*"
rustls = { version = "0.23", default-features = false, features = ["ring", "std", "tls12", "logging"] }
rustls-platform-verifier = "*"
serde = { version = "1", features = ["derive"] }
serde_json = "1"
snap = "1"
tokio = { version = "1", features = ["full"] }
toml = "*"
