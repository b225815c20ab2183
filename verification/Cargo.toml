[package]
name = "rsi_terminal"
version = "0.1.0"
edition = "2021"
publish = false

[dependencies]
unicode-segmentation = "=1.13.3"
termina = "=0.4.0"
base64 = "=0.22.1"
sha2 = "=0.10.9"
getrandom = "=0.3.4"
serde_json = "=1.0.154"
zeroize = "=1.9.1"
ratatui = { version = "=0.29.0", default-features = false, features = ["unstable-rendered-line-info"] }
tokio = { version = "=1.54.1", features = ["full"] }
tokio-util = { version = "=0.7.20", features = ["rt"] }
futures-util = "=0.3.34"
libc = "=0.2.191"
