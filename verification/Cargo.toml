[package]
name = "rbph"
version = "0.1.0"
edition = "2021"
publish = false

[dependencies]
actix-cors = "0.7"
actix-session = { version = "0.10", features = ["redis-session"] }
actix-web = "4"
base64 = "0.22"
bcrypt = "0.17"
deadpool-redis = "*"
dotenvy = "0.15"
env_logger = "0.11"
futures-util = "0.3"
log = "0.4"
md-5 = "0.10"
rand = "0.9"
regex = "1"
serde = { version = "1", features = ["derive"] }
serde_json = "1"
sha2 = "0.10"
sqlx = { version = "0.8", default-features = false, features = ["runtime-tokio", "postgres", "time", "json", "migrate"] }
time = { version = "0.3", features = ["serde", "formatting", "parsing"] }
tokio = { version = "1", features = ["rt-multi-thread", "sync", "time", "macros"] }
uuid = { version = "1", features = ["v4"] }
