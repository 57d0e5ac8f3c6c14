[package]
name = "lyrica_sync"
version = "0.1.0"
edition = "2021"
publish = false

[dependencies]
md-5 = "=0.10.6"
image = "=0.25.10"
rand = "=0.8.8"
dirs = "=5.0.1"
audiotags = "=0.5.0"
id3 = "=1.17.2"
tokio = { version = "=1.53.2", features = ["full"] }
serde = { version = "=1.0.229", features = ["derive"] }
serde_json = "=1.0.151"
toml = "=0.9.8"
