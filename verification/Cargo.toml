[package]
name = "blockifier"
version = "0.1.0"
edition = "2021"
publish = false

[dependencies]
async-trait = "0.1"
cached = "0.53"
serde = { version = "1", features = ["derive"] }
thiserror = "1"
toml = "0.8"
