[package]
name = "cetz_core"
version = "0.1.0"
edition = "2021"
publish = false

[dependencies]
kurbo = "*"
linesweeper = "=0.3.0"
serde = { version = "1", features = ["derive"] }
ciborium = "*"
