[package]
name = "block_grid"
version = "0.1.0"
edition = "2021"
publish = false

[dependencies]
grid = "*"
rand = "0.8"
serde = { version = "*", features = ["derive"] }
