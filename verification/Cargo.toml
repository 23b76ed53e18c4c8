[package]
name = "vr_harness"
version = "0.1.0"
edition = "2021"
publish = false

[dependencies]
glium = "0.27"
openvr = "*"
