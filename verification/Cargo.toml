[package]
name = "creator_core"
version = "0.1.0"
edition = "2021"
publish = false

[dependencies]
rayon = "*"
uuid = { version = "*", features = ["v4"] }
serde = { version = "*", features = ["derive"] }
serde_json = "*"
simple-easing = "*"
font-kit = "*"
