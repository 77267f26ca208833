[package]
name = "landscape"
version = "0.1.0"
edition = "2021"
publish = false

[dependencies]
cidr = "*"
serde = { version = "1", features = ["derive"] }
serde_json = "1"
tokio = { version = "1", features = ["rt", "time", "sync", "macros"] }
dhcproto = "*"
