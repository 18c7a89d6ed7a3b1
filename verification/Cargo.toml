[package]
name = "runter"
version = "0.1.0"
edition = "2021"
publish = false

[dependencies]
aes-gcm = "0.10"
hkdf = "0.12"
hmac = "0.12"
sha2 = "0.10"
x25519-dalek = { version = "2", features = ["static_secrets"] }
ed25519-dalek = { version = "2", features = ["rand_core"] }
curve25519-dalek = "4"
rand = "0.8"
zeroize = "1"
crc32fast = "1"
hex = "0.4"
uuid = { version = "1", features = ["v4"] }
tokio = { version = "1", features = ["rt", "net", "time", "sync", "io-util", "macros"] }
bincode = "1"
serde = { version = "1", features = ["derive"] }
serde_json = "1"
thiserror = "1"
prometheus = { version = "0.13", default-features = false }
lazy_static = "1"
dashmap = "5"
parking_lot = "0.12"
rusqlite = "0.31"
r2d2 = "0.8"
r2d2_sqlite = "0.24"
rocksdb = { version = "0.22", default-features = false }
