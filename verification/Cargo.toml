[package]
name = "game_input"
version = "0.1.0"
edition = "2021"
publish = false

[dependencies]
anyhow = "=1.0.104"
failchain = "=0.1018.2"
idcontain = "=0.7.6"
sdl2 = "=0.38.0"
thiserror = "=1.0.69"
