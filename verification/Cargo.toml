[package]
name = "chat_bridge"
version = "0.1.0"
edition = "2021"
publish = false

[dependencies]
futures = "0.3"
irc = { version = "=1.1.0", default-features = false }
rustc-serialize = "=0.3.25"
tokio = { version = "1", features = ["rt-multi-thread"] }
