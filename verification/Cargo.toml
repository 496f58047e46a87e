[package]
name = "ab_macros"
version = "0.1.0"
edition = "2021"
publish = false

[dependencies]
sled = "0.34"
jsonwebtoken = "9"
rand = "0.8"
chrono = "0.4"
serde = { version = "1", features = ["derive"] }
serde_json = "1"
actix-web = "4"
actix-cors = "*"
dotenv = "0.15"
env_logger = "*"
log = "0.4"
twilio = "*"
