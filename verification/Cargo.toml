[package]
name = "md_book"
version = "0.1.0"
edition = "2021"
publish = false

[dependencies]
markdown = "=1.0.0"
tera = "=1.20.1"
serde_json = "=1.0.151"
syntect = "=5.3.0"
html-escape = "=0.2.15"
jiff = "=0.2.38"
clap = { version = "=4.6.7", features = ["derive"] }
twelf = { version = "=0.15.0", features = ["env", "toml", "json"] }
tokio = { version = "=1.53.2", features = ["full"] }
warp = { version = "=0.4.3", features = ["server", "websocket"] }
notify = "=8.2.0"
futures = "=0.3.34"
anyhow = "=1.0.104"
serde = { version = "=1.0.229", features = ["derive"] }
walkdir = "=2.5.0"
