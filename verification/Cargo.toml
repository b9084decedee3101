[package]
name = "cache_action"
version = "0.1.0"
edition = "2021"
publish = false

[dependencies]
async-compat = "0.2"
async-compression = { version = "0.4", features = ["futures-io", "xz"] }
bytes = "1"
clap = { version = "4", features = ["derive"] }
flume = "0.12"
futures = "0.3"
http = "=1.5.0"
memchr = "=2.8.3"
nix = { version = "0.31", features = ["process", "fs"] }
pin-project-lite = "0.2"
reqwest = { version = "=0.12.28", default-features = false, features = ["rustls-tls", "stream"] }
sha2 = "=0.11.1"
smallvec = "=1.16.4"
tokio = { version = "1", features = ["full"] }
tokio-util = { version = "0.7", features = ["io"] }
url = "=2.5.8"
