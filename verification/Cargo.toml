[package]
name = "ipcmanview"
version = "0.1.0"
edition = "2021"
publish = false

[dependencies]
md5 = "*"
base64 = "*"
serde = { version = "*", features = ["derive"] }
serde_json = "*"
chrono = "*"
tokio = { version = "*", default-features = false, features = ["rt", "macros", "sync", "time"] }
reqwest = { version = "*", default-features = false, features = ["json"] }
