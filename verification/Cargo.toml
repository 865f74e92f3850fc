[package]
name = "rrt_daemon"
version = "0.1.0"
edition = "2021"
publish = false

[dependencies]
base64 = "=0.22.1"
bytes = "=1.12.1"
futures-util = "=0.3.34"
http-body-util = "=0.1.5"
hyper = { version = "=1.12.0", features = ["full"] }
hyper-util = { version = "=0.1.21", features = ["full"] }
libc = "=0.2.191"
portable-pty = "=0.8.1"
rmp = "=0.8.15"
rmp-serde = "=1.3.1"
rmpv = { version = "=1.3.1", features = ["with-serde"] }
serde = { version = "=1.0.229", features = ["derive"] }
serde_json = "=1.0.154"
serde-pickle = "=1.2.0"
tempfile = "=3.27.0"
tokio = { version = "=1.54.1", features = ["full"] }
tokio-stream = { version = "=0.1.19", features = ["net"] }
tokio-tungstenite = "=0.24.0"
tonic = "=0.12.3"
