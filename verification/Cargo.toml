[package]
name = "amqp_core"
version = "0.1.0"
edition = "2021"
publish = false

[dependencies]
bytes = "1"
uuid = "1"
chrono = { version = "0.4", default-features = false, features = ["clock"] }
ordered-float = "*"
