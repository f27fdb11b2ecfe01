[package]
name = "lightning"
version = "0.1.0"
edition = "2021"
publish = false

[dependencies]
chrono = { version = "0.4", default-features = false, features = ["std", "serde"] }
glob = "0.3"
pandoc = "*"
serde = { version = "1", features = ["derive"] }
serde_yaml = "0.9"
syntect = { version = "5", default-features = false, features = ["default-fancy"] }
yaml-rust = "0.4"
