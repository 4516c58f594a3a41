[package]
name = "blob_store"
version = "0.1.0"
edition = "2021"
publish = false

[dependencies]
redb = "3"
bincode = { version = "2", features = ["serde"] }
serde = { version = "1", features = ["derive"] }
rand = "0.9"
glam = { version = "*", features = ["serde"] }
asset-importer = "*"
