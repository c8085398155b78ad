[package]
name = "nimbus_reports"
version = "0.1.0"
edition = "2021"
publish = false

[dependencies]
keyring = { version = "3", default-features = false }
serde_json = "1"
serde = { version = "1", features = ["derive"] }
reqwest = { version = "0.12", default-features = false, features = ["json", "cookies"] }
