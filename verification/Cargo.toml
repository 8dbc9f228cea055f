[package]
name = "voxel_terrain"
version = "0.1.0"
edition = "2021"
publish = false

[dependencies]
euclid = "0.22"
gdnative = "0.9"
marching-cubes = "*"
threadpool = "1"
