[package]
name = "rlbot_rust_compat"
version = "0.1.0"
edition = "2021"
publish = false

[dependencies]
pyo3 = "=0.20.3"
numpy = "=0.20.0"
ndarray = "=0.15.6"
glam = "=0.28.0"
rlgym_sim_rs = "=0.8.0-alpha"
rocketsim_rs = { version = "=0.32.1", features = ["glam"] }
