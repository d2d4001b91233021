[package]
name = "barmarchy"
version = "0.1.0"
edition = "2021"
publish = false

[dependencies]
serde = { version = "1", features = ["derive"] }
serde_json = "1"
toml = "0.8"
cairo-rs = "*"
libc = "0.2"
memmap2 = "0.9"
