[package]
name = "voxel_chunks"
version = "0.1.0"
edition = "2021"
publish = false

[dependencies]
ahash = "0.8"
flume = "0.11"
ndshape = "0.3"
godot = "*"
rayon = "1"
parking_lot = "0.12"
log = "0.4"
