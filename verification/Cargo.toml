[package]
name = "serde_dynamodb"
version = "0.1.0"
edition = "2021"
publish = false

[dependencies]
serde = "*"
rusoto_dynamodb = { version = "*", default-features = false, features = ["rustls"] }
