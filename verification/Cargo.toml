[package]
name = "kagent"
version = "0.1.0"
edition = "2021"
publish = false

[dependencies]
rand = "=0.9.5"
md5 = "=0.7.0"
uuid = { version = "=1.29.0", features = ["v4"] }
similar = "=2.7.0"
base64 = "=0.22.1"
regex = "=1.13.1"
serde = { version = "=1.0.229", features = ["derive"] }
serde_json = "=1.0.154"
serde_yaml = "=0.9.34"
toml = "=0.8.23"
dirs = "=6.0.0"
anyhow = "=1.0.104"
thiserror = "=2.0.21"
clap = { version = "=4.6.7", features = ["derive"] }
url = "=2.5.8"
scraper = "=0.29.0"
html2md = "=0.2.17"
glob = "0.3"
