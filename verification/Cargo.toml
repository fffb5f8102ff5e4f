[package]
name = "screenshot_renamer"
version = "0.1.0"
edition = "2021"
publish = false

[dependencies]
base64 = "*"
notify = "*"
reqwest = { version = "*", default-features = false, features = ["blocking", "json"] }
serde = { version = "*", features = ["derive"] }
serde_json = "*"
machine-uid = "*"
dotenvy = "*"
chrono = "*"
