[package]
name = "website_pictures_server"
version = "0.1.0"
edition = "2021"
publish = false

[dependencies]
actix-cors = "=0.7.2"
actix-web = "=4.15.0"
chrono = "=0.4.45"
deadpool-postgres = "=0.14.2"
dotenv = "=0.15.0"
env_logger = "=0.11.11"
log = "=0.4.34"
serde = { version = "=1.0.229", features = ["derive"] }
serde_json = "=1.0.151"
tokio-postgres = { version = "=0.7.18", features = ["with-chrono-0_4"] }
