[package]
name = "authz"
version = "0.1.0"
edition = "2021"
publish = false

[dependencies]
cedar-policy = "*"
serde_json = "*"
