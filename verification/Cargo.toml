[package]
name = "tokio_gcp"
version = "0.2.0"
edition = "2021"
publish = false

[dependencies]
chrono = "0.4"
openssl = "0.10"
jsonwebtoken = "9"
serde = { version = "1", features = ["derive"] }
serde_json = "1"
hyper = { version = "0.14", features = ["client", "http1", "tcp"] }
hyper-tls = "0.5"
tokio = { version = "1", features = ["rt-multi-thread", "sync"] }

[dev-dependencies]
base64 = "0.22"
