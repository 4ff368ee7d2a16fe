[package]
name = "asgr"
version = "0.1.0"
edition = "2021"
publish = false

[dependencies]
actix-files = "0.5"
actix-web = "3"
anyhow = "1"
chrono = { version = "0.4", features = ["serde"] }
dotenv = "0.15"
env_logger = "0.8"
envy = "0.4"
log = "0.4"
paho-mqtt = "0.9"
reqwest = { version = "0.10", features = ["blocking"] }
serde = { version = "1", features = ["derive"] }
serde_json = "1"
uuid = { version = "0.8", features = ["v4"] }
