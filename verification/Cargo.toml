[package]
name = "tora"
version = "0.1.0"
edition = "2021"
publish = false

[dependencies]
serde_json = "*"
chrono = "*"
clap = "*"
dirs = "*"
reqwest = { version = "*", default-features = false, features = ["blocking"] }
