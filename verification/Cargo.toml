[package]
name = "track_classification"
version = "0.1.0"
edition = "2021"
publish = false

[dependencies]
anyhow = "=1.0.104"
burn-dataset = { version = "=0.13.2", features = ["sqlite-bundled"] }
chrono = "=0.4.45"
dateparser = "=0.3.1"
futures-util = "=0.3.34"
rand = "=0.10.3"
rspotify = { version = "=0.16.1", features = ["cli", "env-file"] }
serde = { version = "=1.0.229", features = ["derive"] }
tokio = { version = "=1.53.2", features = ["macros", "rt-multi-thread"] }
