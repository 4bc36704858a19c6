[package]
name = "slark"
version = "0.1.0"
edition = "2021"
publish = false

[dependencies]
gif = "*"
png = "*"
jpeg-decoder = "*"
webp-animation = "*"
serde = { version = "1", features = ["derive"] }
serde_json = "1"
