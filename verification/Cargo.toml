[package]
name = "gl_puck"
version = "0.1.0"
edition = "2021"
publish = false

[dependencies]
gl = "=0.14.0"
glam = "=0.29.3"
glutin = "=0.29.1"
objld = "=0.5.0"
rayon = "=1.5.3"
