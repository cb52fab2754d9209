[package]
name = "multitrade"
version = "0.1.0"
edition = "2021"
publish = false

[dependencies]
aes-gcm = "0.10"
pbkdf2 = { version = "0.12", features = ["hmac"] }
sha2 = "0.10"
sha1 = "0.10"
hmac = "0.12"
md-5 = "0.10"
hex = "0.4"
base64 = "0.22"
percent-encoding = "2"
url = "2"
uuid = { version = "1", features = ["v4", "v5"] }
chrono = "0.4"
rand = "0.8"
zeroize = "1"
serde = { version = "1", features = ["derive"] }
serde_json = "1"
async-trait = "0.1"
log = "0.4"
env_logger = "0.11"
thiserror = "1"
tokio = { version = "1", features = ["sync", "time", "rt", "macros"] }
reqwest = { version = "0.12", default-features = false, features = ["json"] }
