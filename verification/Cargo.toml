[package]
name = "label_wires"
version = "0.1.0"
edition = "2021"
publish = false

[dependencies]
csv = "1"
iced = { version = "0.12", default-features = false, features = ["multi-window"] }
once_cell = "1"
serde = { version = "1", features = ["derive"] }
serde_json = "1"
thiserror = "1"
tracing = "0.1"
uuid = { version = "1", features = ["v4", "serde"] }
