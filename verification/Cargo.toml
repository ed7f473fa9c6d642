[package]
name = "emirates_id_reader"
version = "0.4.0"
edition = "2021"
publish = false

[dependencies]
pcsc = "2"
serde = { version = "1", features = ["derive"] }
