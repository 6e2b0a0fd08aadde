[package]
name = "brique"
version = "0.2.0"
edition = "2021"
publish = false

[dependencies]
rustc_apfloat = "0.1"
const_soft_float = "*"
rand = "0.8"
plotters = "0.3"
