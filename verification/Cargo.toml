[package]
name = "snaek"
version = "0.1.0"
edition = "2021"
publish = false

[dependencies]
rand = "0.8"
scoped_threadpool = "0.1"
sdl2 = "*"
