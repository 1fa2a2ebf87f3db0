[package]
name = "valiforge"
version = "0.1.0"
edition = "2021"
publish = false

[dependencies]
openapiv3 = "=1.0.4"
serde_yaml = "=0.9.34"
serde_json = "=1.0.154"
serde = { version = "=1.0.229", features = ["derive"] }
jsonschema = { version = "0.25", default-features = false }
url = "=2.5.8"
toml = "=0.8.23"
chrono = { version = "=0.4.45", features = ["serde"] }
reqwest = { version = "=0.12.28", default-features = false, features = ["json", "rustls-tls"] }
tokio = { version = "=1.54.1", features = ["rt-multi-thread", "macros", "time", "sync"] }
thiserror = "=1.0.69"
anyhow = "=1.0.104"
