[package]
name = "symdiff"
version = "0.1.0"
edition = "2021"
publish = false

[dependencies]
libm = "0.2"
bytemuck = "1"
rustc_apfloat = "0.2"
