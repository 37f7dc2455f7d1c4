[package]
name = "spvc"
version = "0.1.0"
edition = "2021"
publish = false

[dependencies]
rspirv = "*"
spirv_headers = "*"
spirv = "*"
error-chain = "*"
syn = { version = "*", features = ["full"] }
quote = "*"
proc-macro2 = "*"
vulkano = "*"
