[package]
name = "razz_lib"
version = "0.1.0"
edition = "2021"
publish = false

[dependencies]
glam = { version = "0.24", features = ["rand"] }
rand = "0.8"
rayon = "1"
slotmap = "1"
tobj = "3"
