[package]
name = "ray_tracing_the_next_week"
version = "2.0.0"
edition = "2021"
publish = false

[dependencies]
clap = "4"
config = "0.14"
lazy_static = "1"
rand = "0.8"
