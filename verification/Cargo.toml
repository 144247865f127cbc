[package]
name = "glowbe"
version = "0.1.0"
edition = "2021"
publish = false

[dependencies]
uuid = { version = "1", features = ["v4", "v7"] }
serde = { version = "1", features = ["derive"] }
serde_json = "1"
toml = "0.8"
anyhow = "1"
tracing = "0.1"
tracing-subscriber = "0.3"
image = { version = "0.25", default-features = false, features = ["png", "jpeg"] }
zip = { version = "2", default-features = false, features = ["deflate"] }
memmap2 = "0.9"
mdns-sd = "*"
flume = "*"
tokio = { version = "1", features = ["rt-multi-thread", "macros", "net", "time", "sync"] }
rustfft = "6"
fontdue = "0.9"
