[package]
name = "record_store"
version = "0.1.0"
edition = "2021"
publish = false

[dependencies]
anyhow = "1"
dotenv = "0.15"
serde = "1"
serde_json = "1"
