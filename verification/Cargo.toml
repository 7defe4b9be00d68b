[package]
name = "httprs"
version = "0.1.0"
edition = "2021"
publish = false

[dependencies]
anyhow = "=1.0.104"
base64 = "=0.23.1"
clap = { version = "=4.6.7", features = ["derive"] }
colored = "=3.1.1"
futures-util = "=0.3.34"
indicatif = "=0.18.6"
mime = "=0.3.17"
mime_guess = "=2.0.5"
reqwest = { version = "=0.13.5", default-features = false, features = ["multipart", "stream"] }
serde_json = "=1.0.151"
syntect = { version = "=5.3.0", default-features = false, features = ["default-fancy"] }
tokio = { version = "=1.53.2", features = ["rt-multi-thread", "macros", "fs", "io-util"] }
url = "=2.5.8"
