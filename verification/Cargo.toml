[package]
name = "wgsparkl"
version = "0.1.0"
edition = "2021"
publish = false

[dependencies]
nalgebra = "=0.33.3"
bytemuck = { version = "1", features = ["derive"] }
encase = { version = "=0.10.0", features = ["nalgebra"] }
naga_oil = "=0.16.0"
wgpu = { version = "=23.0.1", features = ["naga-ir"] }
wgcore = "=0.2.2"
wgebra = "=0.2.0"
wgparry3d = "=0.2.0"
wgrapier3d = "=0.2.0"
rapier3d = "0.23"
rapier2d = "0.23"
