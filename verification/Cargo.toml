[package]
name = "asteroids"
version = "0.1.0"
edition = "2021"
publish = false

[dependencies]
rand = "=0.9.5"
vek = { version = "=0.17.2", features = ["serde"] }
serde = { version = "=1.0.229", features = ["derive"] }
serde_json = "=1.0.154"
egui = { version = "=0.27.2", default-features = false }
image = { version = "=0.24.9", default-features = false, features = ["png"] }
reqwest = { version = "=0.12.28", default-features = false, features = ["blocking", "json", "rustls-tls"] }
