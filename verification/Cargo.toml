[package]
name = "bitbox_backup"
version = "0.1.0"
edition = "2021"
publish = false

[dependencies]
prost = { version = "0.12", features = ["derive"] }
sha2 = "0.10"
