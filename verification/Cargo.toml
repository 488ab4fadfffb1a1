[package]
name = "telchar"
version = "0.1.0"
edition = "2021"
publish = false

[dependencies]
base64 = "0.22"
hmac = "0.12"
libc = "0.2"
opentelemetry = "*"
postgres = "0.19"
rustix = { version = "1", features = ["net", "process"] }
serde = { version = "1", features = ["derive"] }
serde_json = "1"
sha2 = "0.10"
signal-hook = "0.3"
tempfile = "3"
toml = "0.8"
tracing = "0.1"
