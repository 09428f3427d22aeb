[package]
name = "baliusd"
version = "0.1.0"
edition = "2021"
publish = false

[dependencies]
base64 = "0.22"
url = "2"
serde = { version = "1", features = ["derive"] }
serde_json = "1"
tokio = { version = "1", features = ["rt-multi-thread", "macros", "time", "signal", "sync"] }
tokio-postgres = "0.7"
bb8 = "0.8"
bb8-postgres = "0.8"
warp = "0.3"
