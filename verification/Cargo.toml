[package]
name = "clicky_companion"
version = "0.1.0"
edition = "2021"
publish = false

[dependencies]
base64 = "0.22"
http = "1"
image = { version = "0.25", default-features = false, features = ["jpeg"] }
serde = { version = "1", features = ["derive"] }
serde_json = "1"
thiserror = "2"
tokio = { version = "1", features = ["rt", "sync", "macros", "time"] }
futures-util = "0.3"
tokio-tungstenite = "0.24"
reqwest = { version = "0.12", default-features = false, features = ["json"] }
