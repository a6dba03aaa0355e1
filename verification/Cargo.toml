[package]
name = "holstatus"
version = "0.1.0"
edition = "2021"
publish = false

[dependencies]
anyhow = "=1.0.104"
serde_json = "=1.0.154"
