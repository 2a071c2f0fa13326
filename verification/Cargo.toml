[package]
name = "m3u8_downloader"
version = "0.1.0"
edition = "2021"
publish = false

[dependencies]
anyhow = "1"
base64 = "0.22"
clap = { version = "4", features = ["derive"] }
console = "0.15"
dialoguer = "0.11"
directories = "5"
futures = "0.3"
indicatif = "0.17"
m3u8-rs = "6"
reqwest = { version = "0.12", default-features = false, features = ["rustls-tls"] }
sha2 = "0.10"
tokio = { version = "1", features = ["full"] }
url = "2"
