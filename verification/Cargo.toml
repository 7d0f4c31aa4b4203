[package]
name = "steel_core"
version = "0.1.0"
edition = "2021"
publish = false

[dependencies]
chrono = "=0.4.45"
clap = { version = "=4.6.7", features = ["derive"] }
glam = "*"
rustc-hash = "=2.1.3"
serde = { version = "=1.0.229", features = ["derive"] }
serde_json = "=1.0.154"
text_components = { version = "=0.1.6", features = ["serde"] }
toml = "=1.1.8"
tracing = "=0.1.44"
uuid = "=1.29.0"
