[package]
name = "dns_hearth"
version = "0.0.2"
edition = "2021"
publish = false

[dependencies]
rand = "=0.8.8"
urlencoding = "=2.1.3"
serde = { version = "=1.0.229", features = ["derive"] }
serde_json = "=1.0.154"
toml = "=0.8.23"
dotenvy = "=0.15.7"
libc = "=0.2.191"
tokio = { version = "=1.54.1", features = ["rt", "net", "io-util", "sync", "time", "macros", "process", "fs"] }
tokio-util = "=0.7.20"
anyhow = "=1.0.104"
chrono = { version = "0.4", default-features = false, features = ["alloc"] }
