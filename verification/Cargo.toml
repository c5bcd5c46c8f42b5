[package]
name = "symbolic_regression"
version = "0.1.0"
edition = "2021"
publish = false

[dependencies]
fastrand = "=2.5.0"
ndarray = "=0.17.2"
num-traits = "=0.2.19"
serde = { version = "=1.0.229", features = ["derive"] }
web-time = "=1.1.0"
