[package]
name = "ray_tracer"
version = "0.1.0"
edition = "2021"

[dependencies]
clap = "4"
rand = "0.8"
