[package]
name = "revanced_discord_bot"
version = "0.1.0"
edition = "2021"
publish = false

[dependencies]
reqwest = { version = "=0.11.27", default-features = false, features = ["json", "rustls-tls"] }
regex = "=1.13.1"
decancer = "=1.6.5"
censor = "=0.3.0"
parse_duration = "=2.1.1"
sha3 = "=0.10.9"
hex = "=0.4.3"
poise = "=0.6.2"
mongodb = "=2.8.2"
bson = "=2.15.0"
tokio = { version = "=1.54.1", features = ["rt-multi-thread", "macros", "time", "sync"] }
serde = { version = "=1.0.229", features = ["derive"] }
serde_json = "=1.0.154"
chrono = "=0.4.45"
dirs = "=5.0.1"
dotenv = "=0.15.0"
tracing = "=0.1.44"
tracing-subscriber = "=0.3.23"
tesseract = "*"
