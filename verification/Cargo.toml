[package]
name = "yalter_bot"
version = "0.1.0"
edition = "2021"
publish = false

[dependencies]
circular-queue = "0.2"
discord = { version = "0.8", default-features = false }
failure = "0.1"
hldemo = "*"
hyper = "0.10"
lazy_static = "1"
rand = "0.5"
regex = "1"
serde = { version = "1", features = ["derive"] }
serde_json = "1"
serde-xml-rs = "*"
url = "1"
