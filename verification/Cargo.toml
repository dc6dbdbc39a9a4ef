[package]
name = "pike"
version = "0.1.0"
edition = "2021"
publish = false

[dependencies]
sha2 = "0.10"
hex = "0.4"
rand = "0.8"
bytes = "1"
serde = { version = "1", features = ["derive"] }
toml = "0.8"
clap = { version = "4.5", features = ["derive", "env"] }
tokio = { version = "1", features = ["rt-multi-thread", "macros", "net", "fs", "time", "signal", "sync", "io-util"] }
tokio-util = { version = "0.7", features = ["io"] }
axum = "0.8"
reqwest = { version = "0.12", default-features = false, features = ["json", "rustls-tls", "stream"] }
chrono = { version = "0.4", default-features = false, features = ["clock", "alloc", "std"] }
local-ip-address = "0.6"
rpassword = "7"
thiserror = "2"
