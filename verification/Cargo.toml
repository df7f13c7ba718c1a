[package]
name = "skia_canvas"
version = "0.1.0"
edition = "2021"
publish = false

[dependencies]
crc = "3"
rayon = "1"
neon = "1"
skia-safe = { version = "0.80.1", features = ["svg", "textlayout"] }
