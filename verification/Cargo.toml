[package]
name = "flash_parts"
version = "0.1.0"
edition = "2021"
publish = false

[dependencies]
anyhow = "=1.0.104"
bytemuck = "=1.25.2"
clap = { version = "=4.6.7", features = ["derive"] }
esp-idf-part = "=0.5.0"
espflash = { version = "=3.3.0", default-features = false }
opener = "=0.5.2"
rocket = "=0.5.2"
