[package]
name = "whack"
version = "0.1.0"
edition = "2021"
publish = false

[dependencies]
color-eyre = "=0.6.5"
figment = { version = "=0.10.19", features = ["toml", "env"] }
libc = "=0.2.191"
log_buffer = "=1.2.0"
parking_lot = "=0.13.0"
serde = { version = "=1.0.229", features = ["derive"] }
shell-words = "=1.1.1"
tokio = { version = "=1.54.1", features = ["full"] }
tracing = "=0.1.44"
tracing-subscriber = "=0.3.23"
uuid = { version = "=1.29.0", features = ["v4"] }
