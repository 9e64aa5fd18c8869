[package]
name = "dynamodb_expression"
version = "0.1.0"
edition = "2021"
publish = false

[dependencies]
serde_json = "1"
base64 = "0.22"
aws-sdk-dynamodb = { version = "1", default-features = false }
