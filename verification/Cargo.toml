[package]
name = "falcon_launcher"
version = "0.1.0"
edition = "2021"
publish = false

[dependencies]
serde_json = "=1.0.151"
uuid = { version = "=1.27.0", features = ["v4", "serde"] }
serde = { version = "=1.0.229", features = ["derive"] }
serde_ini = "=0.2.0"
sys-info = "=0.9.1"
zip = { version = "=8.6.0", default-features = false, features = ["deflate"] }
reqwest = { version = "=0.13.5", default-features = false, features = ["blocking"] }
toml = "=1.1.7"
