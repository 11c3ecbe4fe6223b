[package]
name = "jeopardy"
version = "0.1.0"
edition = "2021"
publish = false

[dependencies]
uuid = { version = "1", features = ["v4", "serde"] }
rand = "0.8"
serde = { version = "1", features = ["derive"] }
serde_json = "1"
actix = "0.13"
actix-web = "4"
actix-web-actors = "4"
actix-files = "0.6"
actix-identity = "0.7"
chrono = "0.4"
