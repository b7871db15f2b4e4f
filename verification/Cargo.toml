[package]
name = "secretbox_codec"
version = "0.1.0"
edition = "2021"
publish = false

[dependencies]
hex = "0.4"
sodiumoxide = "0.2"
actix-web = { version = "4", default-features = false }
actix-rt = "2"
serde = { version = "1", features = ["derive"] }
serde_json = "1"
