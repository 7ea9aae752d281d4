[package]
name = "spond_accept"
version = "0.1.0"
edition = "2021"
publish = false

[dependencies]
chrono = "0.4"
os_info = "3"
reqwest = { version = "0.12", default-features = false, features = ["blocking", "json", "rustls-tls"] }
serde = { version = "1", features = ["derive"] }
serde_derive = "1"
serde_json = "1"
toml = "0.8"
