[package]
name = "book_catalog"
version = "0.1.0"
edition = "2021"
publish = false

[dependencies]
actix-web = "4"
actix-cors = "0.7"
actix-rt = "2"
mongodb = { version = "3", features = ["sync"] }
serde = { version = "1", features = ["derive"] }
serde_json = "1"
dotenv = "0.15"
env_logger = "0.11"
