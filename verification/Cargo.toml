[package]
name = "cedar_sharp"
version = "0.1.0"
edition = "2021"
publish = false

[dependencies]
cedar-policy = "=3.4.3"

[dev-dependencies]
rand = "=0.8.8"
stopwatch = "=0.0.7"
