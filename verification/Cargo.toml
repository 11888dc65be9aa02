[package]
name = "roadway_curve"
version = "0.1.0"
edition = "2021"
publish = false

[dependencies]
fixed = "1"
cordic = "0.1"
