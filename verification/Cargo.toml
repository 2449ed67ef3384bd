[package]
name = "ldui"
version = "0.1.0"
edition = "2021"
publish = false

[dependencies]
anyhow = "1"
async-trait = "0.1"
base64 = "=0.22.1"
chrono = { version = "0.4", features = ["serde"] }
color-eyre = "0.6"
crossterm = "0.28"
dirs = "5"
image = { version = "0.25", default-features = false, features = ["png", "jpeg", "gif", "webp", "bmp", "ico", "tiff"] }
lazy_static = "1"
md5 = "=0.7.0"
rand = "0.8"
rand_core = { version = "0.6", features = ["getrandom"] }
ratatui = "0.29"
ratatui-image = { version = "4", default-features = false, features = ["crossterm"] }
reqwest = { version = "0.12", features = ["json"] }
rsa = "0.9"
scraper = "=0.23.1"
serde = { version = "1", features = ["derive"] }
serde_json = "1"
thiserror = "1"
tokio = { version = "1", features = ["rt-multi-thread", "macros", "fs", "sync"] }
toml = "0.8"
tracing = "0.1"
urlencoding = "=2.1.3"
uuid = { version = "1", features = ["v4"] }
webbrowser = "1"
