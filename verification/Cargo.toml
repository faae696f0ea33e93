[package]
name = "ra_common"
version = "0.1.0"
edition = "2021"
publish = false

[dependencies]
base64 = "0.22"
bs58 = "0.5"
chrono = "0.4"
data-encoding = "2"
hex = "0.4"
lru = "0.12"
pbkdf2 = "0.12"
rand = "0.8"
serde = { version = "1", features = ["derive"] }
serde_json = "1"
sha1 = "0.10"
sha2 = "0.10"
subtle = "2"
thiserror = "1"
uuid = { version = "1", features = ["v4"] }
