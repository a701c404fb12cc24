[package]
name = "textbook_downloader"
version = "0.1.0"
edition = "2021"
publish = false

[dependencies]
url = "*"
base64 = "*"
serde = { version = "*", features = ["derive"] }
serde_json = "*"
bytes = "*"
futures-util = "*"
tokio = { version = "*", features = ["rt-multi-thread", "macros", "fs", "io-util", "sync"] }
tokio-util = "*"
reqwest = { version = "*", default-features = false, features = ["stream"] }
