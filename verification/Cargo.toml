[package]
name = "pongo"
version = "0.1.0"
edition = "2021"
publish = false

[dependencies]
rand = "*"
clock_ticks = "*"
sdl2 = "*"
sdl2_gfx = "*"
sdl2_image = "*"
sdl2_mixer = "*"
sdl2_ttf = "*"
