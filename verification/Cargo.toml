[package]
name = "vexa_vm"
version = "0.1.0"
edition = "2021"
publish = false

[dependencies]
anyhow = "1"
axum = { version = "*", default-features = false, features = ["json"] }
base64 = "0.22"
chrono = { version = "0.4", default-features = false, features = ["std", "clock", "serde"] }
flate2 = "1"
futures-util = "0.3"
ipnet = "2"
reqwest = { version = "0.12", default-features = false, features = ["json", "stream"] }
rusqlite = { version = "*", features = ["bundled", "backup"] }
serde = { version = "1", features = ["derive"] }
serde_json = "1"
sha2 = "*"
tar = "0.4"
tera = { version = "1", default-features = false }
thiserror = "*"
tokio = { version = "1", features = ["fs", "io-util", "macros", "process", "rt-multi-thread", "time"] }
tracing = "0.1"
uuid = { version = "1", features = ["v4", "serde"] }
