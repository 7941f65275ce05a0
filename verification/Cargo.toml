[package]
name = "battleship_engine"
version = "0.1.0"
edition = "2021"
publish = false

[dependencies]
hex = "0.4"
rand = "0.8"
tokio = { version = "1", features = ["sync", "rt", "rt-multi-thread", "macros"] }
serde = { version = "1", features = ["derive"] }
serde_json = "1"
actix-web = "4"
actix-cors = "0.7"
futures = "0.3"
