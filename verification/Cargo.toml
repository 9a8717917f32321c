[package]
name = "cello"
version = "0.1.0"
edition = "2021"
publish = false

[dependencies]
sha2 = "=0.11.1"
crc32fast = "=1.5.4"
hmac = "=0.13.0"
subtle = "=2.6.1"
rand = "=0.10.3"
base64 = "=0.23.1"
urlencoding = "=2.1.3"
hex = "=0.4.3"
serde = { version = "=1.0.229", features = ["derive"] }
serde_json = "=1.0.154"
uuid = { version = "=1.29.0", features = ["v4"] }
num_cpus = "=1.17.0"
chrono = "=0.4.45"
mime_guess = "=2.0.5"
matchit = "=0.9.2"
regex = "=1.13.1"
quick-xml = "=0.42.0"
prometheus = { version = "*", default-features = false }
