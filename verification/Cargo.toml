[package]
name = "dsh-desktop-tauri"
version = "0.1.0"
edition = "2021"
publish = false

[dependencies]
futures-util = "0.3"
http = "1"
libc = "0.2"
reqwest = { version = "0.12", default-features = false, features = ["blocking", "stream"] }
serde_json = "1"
tokio = { version = "1", features = ["net", "rt", "sync", "time"] }
tokio-tungstenite = "0.24"
