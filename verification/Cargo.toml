[package]
name = "steelseries_sync"
version = "0.1.0"
edition = "2021"
publish = false

[dependencies]
sysinfo = "*"
chrono = "*"
base64 = "*"
serde = { version = "*", features = ["derive"] }
serde_json = "*"
reqwest = { version = "*", default-features = false, features = ["multipart", "json"] }
notify = "*"
tokio = { version = "*", features = ["rt", "macros", "time", "sync"] }
dirs = "*"
