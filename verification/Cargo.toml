[package]
name = "botapi"
version = "0.1.0"
edition = "2021"
publish = false

[dependencies]
serde = { version = "1", features = ["derive"] }
serde_with_macros = "1"
async-trait = "0.1"
