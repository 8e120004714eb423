[package]
name = "glyph_draw"
version = "0.1.0"
edition = "2021"
publish = false

[dependencies]
font-atlas = "*"
font-atlas-image = "*"
glium = "*"
glutin = "*"
image = "*"
nalgebra = "*"
