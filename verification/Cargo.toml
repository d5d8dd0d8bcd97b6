[package]
name = "multiply"
version = "0.1.0"
edition = "2021"
publish = false

[dependencies]
ocl = "0.19"
ocl-extras = "*"
colorify = "*"
log = "0.4"
futures = "0.1"
