[package]
name = "fractals"
version = "0.1.0"
edition = "2021"
publish = false

[dependencies]
image = "=0.25.10"
crossterm = "=0.29.0"
indicatif = "=0.18.6"
rustc_apfloat = "=0.2.3"
