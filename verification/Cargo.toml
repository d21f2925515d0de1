[package]
name = "icnx"
version = "0.1.0"
edition = "2021"
publish = false

[dependencies]
uuid = { version = "*", features = ["v4"] }
chrono = "*"
mime_guess = "*"
tokio-util = "*"
rusqlite = { version = "*", features = ["bundled"] }
ureq = { version = "*", default-features = false }
serde = { version = "*", features = ["derive"] }
serde_json = "*"
directories = "*"
