[package]
name = "genesis"
version = "0.1.0"
edition = "2021"
publish = false

[dependencies]
regex = "1"
urlencoding = "2"
chrono = "0.4"
chrono-tz = "*"
serde = { version = "1", features = ["derive"] }
serde_json = "1"
tokio = { version = "1", features = ["full"] }
tracing = "0.1"
tracing-subscriber = "0.3"
dotenv = "0.15"
ureq = { version = "2", features = ["json"] }
rustls = "0.23"
sqlx = { version = "0.8", default-features = false, features = ["runtime-tokio", "postgres", "macros"] }
poise = "0.6"
serenity = "0.12"
async-trait = "0.1"
