[package]
name = "cadsd"
version = "0.1.0"
edition = "2021"
publish = false

[dependencies]
num-complex = { version = "0.4", features = ["serde"] }
nalgebra = "0.33"
ndarray = "0.16"
rand = "0.8"
rand_distr = "0.4"
rayon = "1"
serde = { version = "1", features = ["derive"] }
serde_json = "1"
log = "0.4"
thiserror = "1"
