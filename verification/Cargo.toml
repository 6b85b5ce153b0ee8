[package]
name = "zrpc"
version = "0.1.0"
edition = "2021"
publish = false

[dependencies]
anyhow = "=1.0.104"
chrono = "=0.4.45"
dashmap = "=6.2.1"
etcd-client = "=0.20.0"
http = "*"
pin-project-lite = "*"
rand = "=0.8.8"
serde = { version = "*", features = ["derive"] }
serde_json = "=1.0.151"
thiserror = "*"
tokio = { version = "*", features = ["macros", "rt-multi-thread", "signal", "sync", "time"] }
tonic = "=0.14.6"
tower = { version = "=0.5.3", features = ["discover", "timeout", "util"] }
uuid = { version = "=1.27.0", features = ["v4"] }
