[package]
name = "daiana"
version = "0.1.0"
edition = "2021"
publish = false

[dependencies]
uuid = { version = "1", features = ["v4"] }
log = "0.4"
env_logger = "0.11"
actix-web = { version = "4", default-features = false, features = ["macros", "compress-gzip"] }
actix-ws = "0.3"
actix-cors = "0.7"
futures-util = "0.3"
bytes = "1"
serde = { version = "1", features = ["derive"] }
serde_json = "1"
dotenv = "0.15"
derive_more = { version = "2", features = ["display", "error"] }
