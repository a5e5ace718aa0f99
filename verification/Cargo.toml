[package]
name = "hf_downloader"
version = "0.2.3"
edition = "2021"
publish = false

[dependencies]
serde = { version = "1", features = ["derive"] }
serde_json = "1"
url = "2"
dirs = "5"
sys-locale = "0.3"
futures-util = "0.3"
tokio = { version = "1", features = ["rt-multi-thread", "fs", "io-util", "sync", "time"] }
reqwest = { version = "0.12", default-features = false, features = ["rustls-tls", "http2", "stream", "json"] }
rfd = { version = "0.15", default-features = false, features = ["xdg-portal", "tokio"] }
arboard = { version = "3", default-features = false }

[dev-dependencies]
regex = "1"
