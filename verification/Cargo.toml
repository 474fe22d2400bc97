[package]
name = "stock_report"
version = "0.1.0"
edition = "2021"
publish = false

[dependencies]
serde_json = "*"
feed-rs = "*"
chrono = "*"
curl = { version = "*", default-features = false }
serde = { version = "*", features = ["derive"] }

[dev-dependencies]
num-format = "*"
