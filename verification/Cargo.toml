[package]
name = "gaia_assembler"
version = "0.1.0"
edition = "2021"
publish = false

[dependencies]
serde = { version = "1", features = ["derive"] }
toml = "0.8"
libc = "0.2"
page_size = "0.6"
