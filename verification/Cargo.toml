[package]
name = "devprofile"
version = "0.1.0"
edition = "2021"
publish = false

[dependencies]
base64 = "*"
chrono = "*"
futures = "*"
reqwest = { version = "*", default-features = false, features = ["json", "rustls-tls"] }
serde = { version = "*", features = ["derive"] }
serde_json = "*"
tokio = { version = "*", features = ["macros", "rt-multi-thread", "time"] }
uuid = { version = "*", features = ["v4"] }
