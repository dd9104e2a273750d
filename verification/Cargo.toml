[package]
name = "inter_val"
version = "0.1.0"
edition = "2021"
publish = false

[dependencies]
nalgebra = "*"
num = "*"
ordered-float = "*"
thiserror = "*"
