[package]
name = "fluxcore"
version = "0.1.0"
edition = "2021"
publish = false

[dependencies]
cgmath = "=0.18.0"
csv = "=1.4.0"
docopt = "=1.1.1"
freetype-rs = "=0.38.0"
gl = "=0.14.0"
glfw = { version = "=0.55.0", default-features = false }
piston2d-graphics = "=0.45.0"
piston2d-opengl_graphics = "=0.89.0"
serde = { version = "=1.0.229", features = ["derive"] }
