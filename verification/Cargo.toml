[package]
name = "lly"
version = "0.1.0"
edition = "2021"
publish = false

[dependencies]
calamine = "=0.38.0"
lilyco = "=0.2.3"
msedge-tts = "=0.4.1"
rustls = { version = "=0.23.46", features = ["ring"] }
serde_json = "=1.0.154"
toml = "=0.8.23"
