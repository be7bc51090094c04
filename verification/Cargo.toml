[package]
name = "otp_engine"
version = "0.1.0"
edition = "2021"
publish = false

[dependencies]
rand = "0.8"
aws-config = { version = "*", default-features = false }
aws-sdk-dynamodb = { version = "*", default-features = false }
tokio = { version = "1", features = ["rt-multi-thread", "macros"] }
