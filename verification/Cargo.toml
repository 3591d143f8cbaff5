[package]
name = "crab_invaders"
version = "0.1.0"
edition = "2021"
publish = false

[dependencies]
macroquad = { version = "=0.4.16", features = ["audio"] }
quad-rand = "=0.2.3"
