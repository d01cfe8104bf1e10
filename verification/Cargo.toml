[package]
name = "rshrink"
version = "0.1.0"
edition = "2021"
publish = false

[dependencies]
regex = "*"
image = "*"
serde = { version = "*", features = ["derive"] }
serde_json = "*"
