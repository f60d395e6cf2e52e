[package]
name = "post_repo"
version = "0.1.0"
edition = "2021"
publish = false

[dependencies]
mongodb = "2"
actix-web = "4"
actix-files = "0.6"
dotenv = "0.15"
env_logger = "0.10"
futures = "0.3"
serde = { version = "1", features = ["derive"] }
