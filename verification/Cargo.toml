[package]
name = "univers_ark_developer"
version = "0.1.0"
edition = "2021"
publish = false

[dependencies]
csv = "=1.4.0"
url = "=2.5.8"
serde = { version = "=1.0.229", features = ["derive"] }
serde_json = "=1.0.154"
portable-pty = "=0.9.0"
