[package]
name = "fortify"
version = "0.1.0"
edition = "2021"
publish = false

[dependencies]
rand = "0.9"
urlencoding = "2"
uuid = { version = "1", features = ["v4"] }
serde = { version = "1", features = ["derive"] }
serde_json = "1"
thiserror = "2"
sysinfo = "0.30"
