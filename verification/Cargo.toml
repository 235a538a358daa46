[package]
name = "ascii_art"
version = "0.1.0"
edition = "2021"
publish = false

[dependencies]
image = "0.25"
imageproc = "0.25"
ab_glyph = "0.2"
base64 = "0.22"
parking_lot = "0.12"
serde = { version = "1", features = ["derive"] }
rayon = "1"
