[package]
name = "agentz"
version = "0.1.0"
edition = "2021"
publish = false

[dependencies]
actix = "0.13"
dotenvy = "0.15"
reqwest = { version = "0.11", features = ["json"] }
serde_json = "1"
