[package]
name = "ascent"
version = "0.1.0"
edition = "2021"
publish = false

[dependencies]
macroquad = { version = "0.4", default-features = false }
serde = { version = "1", features = ["derive"] }
serde-big-array = "0.5"
bincode = "1.3"
