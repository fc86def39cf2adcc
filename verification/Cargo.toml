[package]
name = "slsk_core"
version = "0.1.0"
edition = "2021"
publish = false

[dependencies]
md5 = "0.7"
rand = "0.8"
flate2 = "1"
tokio = { version = "1", features = ["full"] }
bytes = "1"
socket2 = "0.5"
tracing = "0.1"
tracing-subscriber = "0.3"
thiserror = "1"
serde = { version = "1", features = ["derive"] }
serde_json = "1"
toml = "0.8"
dirs = "5"
libc = "0.2"
