[package]
name = "tinkervoice"
version = "0.1.0"
edition = "2021"
publish = false

[dependencies]
serde_json = "*"
base64 = "*"
uuid = { version = "*", features = ["v4"] }
chrono = "*"
serde = { version = "*", features = ["derive"] }
reqwest = { version = "*", default-features = false, features = ["json", "multipart", "rustls-tls"] }
tokio = { version = "*", features = ["rt-multi-thread", "macros", "time"] }
