[package]
name = "rskvs"
version = "0.1.0"
edition = "2021"
publish = false

[dependencies]
dotenvy = "0.15"
thiserror = "1"
tokio = { version = "1", features = ["rt-multi-thread", "macros", "net", "io-util"] }
