[package]
name = "firefly"
version = "0.1.0"
edition = "2021"
publish = false

[dependencies]
keyring = { version = "3", features = ["linux-native"] }
serde = { version = "1", features = ["derive"] }
serde_json = "1"
thiserror = "2"
reqwest = { version = "0.12", default-features = false, features = ["json", "stream", "rustls-tls"] }
tokio = { version = "1", features = ["sync", "time", "rt", "macros"] }
sqlx = { version = "0.8", default-features = false, features = ["sqlite", "runtime-tokio", "macros"] }
chrono = { version = "0.4", default-features = false, features = ["clock", "std"] }
uuid = { version = "1", features = ["v4"] }
eventsource-stream = "0.2"
futures-util = "0.3"
