[package]
name = "bili_account"
version = "0.1.0"
edition = "2021"
publish = false

[dependencies]
serde = { version = "1", features = ["derive"] }
serde_json = "1"
reqwest = { version = "0.12", features = ["json", "cookies"] }
tokio = { version = "1", features = ["rt-multi-thread", "time"] }
log = "0.4"
egui = "0.27"
