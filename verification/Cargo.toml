[package]
name = "droppa"
version = "0.1.0"
edition = "2021"
publish = false

[dependencies]
dashmap = "*"
tokio = { version = "1", features = ["sync", "rt", "time", "macros"] }
zip = { version = "*", default-features = false, features = ["deflate"] }
serde_json = "1"
serde = { version = "1", features = ["derive"] }
actix-web = { version = "4", default-features = false, features = ["macros"] }
actix-multipart = "*"
actix-files = "*"
futures-util = "*"
tokio-stream = { version = "*", features = ["sync"] }
env_logger = "*"
qrcodegen = "*"
dirs = "*"
