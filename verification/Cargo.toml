[package]
name = "gpukit"
version = "0.1.0"
edition = "2021"
publish = false

[dependencies]
ash = "*"
byteorder = "1"
rspirv-reflect = "*"
shaderc = "*"
