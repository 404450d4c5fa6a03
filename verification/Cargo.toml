[package]
name = "embedded_gfx"
version = "0.1.0"
edition = "2021"
publish = false

[dependencies]
line_drawing = "*"
embedded-graphics-core = "*"
nalgebra = "*"
stl_io = "*"
