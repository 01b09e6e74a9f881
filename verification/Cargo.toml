[package]
name = "avif2png"
version = "0.1.0"
edition = "2021"
publish = false

[dependencies]
lodepng = "=3.12.2"
rgb = "=0.8.53"
rayon = "=1.12.0"
indicatif = "=0.18.6"
