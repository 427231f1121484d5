[package]
name = "glyph_mesh"
version = "0.1.0"
edition = "2021"
publish = false

[dependencies]
glium = "*"
lyon = "*"
rusttype = "0.7"
