[package]
name = "oxylos"
version = "0.1.0"
edition = "2021"
publish = false

[dependencies]
anyhow = "1"
chrono = "0.4"
clap = { version = "4", features = ["derive"] }
colored = "2"
filetime = "0.2"
openssl = "0.10"
thiserror = "1"
uuid = { version = "1", features = ["v4"] }
