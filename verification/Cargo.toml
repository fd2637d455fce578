[package]
name = "novacirrus"
version = "0.1.0"
edition = "2021"
publish = false

[dependencies]
uuid = { version = "=1.29.0", features = ["v4"] }
chrono = { version = "=0.4.45", features = ["serde"] }
suppaftp = { version = "=12.2.1", features = ["tokio-rustls-ring"] }
serde = { version = "=1.0.229", features = ["derive"] }
serde_json = "=1.0.154"
thiserror = "=2.0.21"
anyhow = "=1.0.104"
parking_lot = "=0.12.5"
tokio = { version = "=1.54.1", features = ["sync", "fs", "io-util", "rt", "macros"] }
async-trait = "=0.1.92"
log = "=0.4.35"
bytes = "=1.12.1"
aws-config = "1"
aws-credential-types = "1"
aws-sdk-s3 = "1"
aws-smithy-runtime-api = "1"
russh = "*"
russh-sftp = "*"
rustls = "*"
rustls-native-certs = "*"
tokio-rustls = "*"
keyring = "*"
security-framework = "*"
