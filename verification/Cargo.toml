[package]
name = "idkg"
version = "0.1.0"
edition = "2021"
publish = false

[dependencies]
candid = "*"
serde = { version = "*", features = ["derive"] }
minicbor = { version = "*", features = ["derive"] }
hex = "*"
base64 = "*"
