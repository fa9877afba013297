[package]
name = "tri_terrain"
version = "0.1.0"
edition = "2021"
publish = false

[dependencies]
noise = { version = "0.9", default-features = false }
