[package]
name = "kbs"
version = "0.1.0"
edition = "2021"
publish = false

[dependencies]
serde = { version = "1", features = ["derive"] }
async-trait = "0.1"
anyhow = "1"
