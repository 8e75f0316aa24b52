[package]
name = "stripe_webhook"
version = "0.1.0"
edition = "2021"
publish = false

[dependencies]
hex = "0.4"
hmac = "0.12"
sha2 = "0.10"
subtle = "2"
http = "1"
serde_json = "1"
