[package]
name = "rest_scf"
version = "0.1.0"
edition = "2021"
publish = false

[dependencies]
itertools = "0.12"
rand = "0.7"
libm = "0.2"
statrs = "0.16"
rayon = "1"
sysinfo = "0.30"
serde = { version = "1", features = ["derive"] }
