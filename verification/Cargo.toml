[package]
name = "rsnano_node"
version = "0.1.0"
edition = "2021"
publish = false

[dependencies]
serde = { version = "=1.0.229", features = ["derive"] }
toml = "=1.1.8"
dirs = "=7.0.0"
iprobe = "=1.0.0"
chrono = "=0.4.45"
serde_json = "=1.0.154"
bounded-vec-deque = "=0.1.1"
rand = "0.9"
uuid = { version = "1", features = ["v4"] }
