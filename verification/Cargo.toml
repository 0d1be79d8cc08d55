[package]
name = "peerlink"
version = "0.1.0"
edition = "2021"
publish = false

[dependencies]
uuid = { version = "=1.27.0", features = ["v4"] }
chrono = { version = "=0.4.45", features = ["serde"] }
mime_guess = "=2.0.5"
serde = { version = "=1.0.229", features = ["derive"] }
serde_json = "=1.0.151"
tokio = { version = "=1.53.2", features = ["macros", "rt-multi-thread", "net", "time", "sync", "io-util"] }
actix-web = { version = "=4.15.0", default-features = false, features = ["macros"] }
reqwest = { version = "=0.13.5", default-features = false, features = ["json"] }
open = "=5.4.4"
ipconfig = "=0.3.4"
