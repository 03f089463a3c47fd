[package]
name = "ad_demo"
version = "0.1.0"
edition = "2021"
publish = false

[dependencies]
anyhow = "1"
camino = "1"
mcap = "*"
memmap2 = "*"
postcard = { version = "1", features = ["experimental-derive"] }
rand = "0.9"
serde = { version = "1", features = ["derive"] }
serde_json = "1"
