[package]
name = "pronto"
version = "0.1.0"
edition = "2021"
publish = false

[dependencies]
actix-cors = "0.6"
actix-files = "0.6"
actix-rt = "2"
actix-web = "4"
chrono = { version = "0.4", features = ["serde"] }
diesel = { version = "1.4", features = ["postgres", "uuidv07", "chrono", "r2d2"] }
diesel_migrations = "1.4"
dotenv = "0.15"
env_logger = "0.9"
lazy_static = "1.4"
listenfd = "0.3"
log = "0.4"
mime = "0.3"
rand = "0.8"
serde = { version = "1", features = ["derive"] }
serde_json = "1"
uuid = { version = "0.8", features = ["serde", "v4"] }
