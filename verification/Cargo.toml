[package]
name = "tetris_engine"
version = "0.1.0"
edition = "2021"
publish = false

[dependencies]
heapless = "*"
rand = "*"
rand_chacha = "*"
serde = { version = "1", features = ["derive"] }
serde-big-array = "*"
