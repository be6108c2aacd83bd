[package]
name = "standup_bot"
version = "0.1.0"
edition = "2021"
publish = false

[dependencies]
chrono = "0.4"
slack = "*"
reqwest = { version = "0.10", features = ["blocking"] }
actix-web = "*"
