[package]
name = "sensor_polling"
version = "0.1.0"
edition = "2021"
publish = false

[dependencies]
async-nats = "*"
base64 = "*"
futures = "0.3"
once_cell = "1"
rand = "*"
rand_distr = "*"
serde = { version = "1", features = ["derive"] }
serde_json = "1"
tokio = { version = "1", features = ["rt-multi-thread", "macros", "sync", "time", "signal"] }
uuid = { version = "1", features = ["serde", "v4"] }
wascap = "*"
