[package]
name = "stratonotes"
version = "0.1.0"
edition = "2021"
publish = false

[dependencies]
chrono = "=0.4.45"
dotenv = "=0.15.0"
rig-core = { version = "=0.44.0", features = ["reqwest"] }
serde = { version = "=1.0.229", features = ["derive"] }
serde_json = "=1.0.151"
tokio = { version = "=1.53.2", features = ["rt"] }
