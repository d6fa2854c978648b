[package]
name = "taskstore"
version = "0.1.0"
edition = "2021"
publish = false

[dependencies]
chrono = "*"
actix-web = "*"
tokio = { version = "*", features = ["fs", "io-util", "rt", "macros"] }
