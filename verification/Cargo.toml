[package]
name = "leaf"
version = "0.1.0"
edition = "2021"
publish = false

[dependencies]
chrono = { version = "=0.4.45", default-features = false, features = ["std", "clock"] }
chrono-tz = "=0.10.4"
hmac = "=0.12.1"
sha2 = "=0.10.9"
base64 = "=0.22.1"
rand = "=0.9.5"
serde = { version = "=1.0.229", features = ["derive"] }
serde_json = "=1.0.154"
serde_path_to_error = "=0.1.20"
toml = "=0.8.23"
anyhow = "=1.0.104"
thiserror = "=2.0.21"
clap = { version = "=4.6.7", features = ["derive"] }
image = { version = "0.25", default-features = false, features = ["png", "jpeg", "webp", "gif"] }
kamadak-exif = "0.6"

[dev-dependencies]
regex-lite = "=0.1.9"
