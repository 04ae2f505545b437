[package]
name = "tucha"
version = "0.1.0"
edition = "2021"
publish = false

[dependencies]
serde = { version = "=1.0.229", features = ["derive"] }
serde_json = "=1.0.151"
tokio = { version = "=1.53.2", features = ["rt-multi-thread", "macros"] }
grammers-client = "=0.7.0"
grammers-session = "=0.7.0"
grammers-tl-types = "=0.7.0"
dirs = "=7.0.0"
dotenv = "=0.15.0"
