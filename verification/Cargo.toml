[package]
name = "nes_gfx"
version = "0.1.0"
edition = "2021"
publish = false

[dependencies]
sdl2 = "*"
glium = "*"
clock_ticks = "*"
