[package]
name = "review_tool"
version = "0.1.0"
edition = "2021"
publish = false

[dependencies]
sha2 = "0.10"
csv = "1"
serde = { version = "1", features = ["derive"] }
