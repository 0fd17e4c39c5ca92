[package]
name = "chip-8"
version = "0.1.0"
edition = "2021"
publish = false

[dependencies]
rand = "0.8"
sdl2 = "0.35"
gl = "0.14"
serde = { version = "1", features = ["derive"] }
toml = "0.8"
