[package]
name = "zkfp"
version = "0.1.0"
edition = "2021"
publish = false

[dependencies]
image = { version = "0.25", default-features = false, features = ["png", "bmp"] }
base64 = "0.22"
cron = "*"
chrono = "0.4"
serde = { version = "1", features = ["derive"] }
serde_json = "1"
thiserror = "*"
rusqlite = { version = "*", features = ["bundled"] }
tokio = { version = "1", features = ["rt-multi-thread", "sync", "time"] }
tokio-postgres = "*"
rusb = "*"
log = "0.4"
lazy_static = "1"
libc = "0.2"
once_cell = "1"
