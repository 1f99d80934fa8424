[package]
name = "slpk_unpack"
version = "0.1.0"
edition = "2021"
publish = false

[dependencies]
failure = "0.1"
flate2 = "1"
jsonformat = "*"
num_cpus = "1"
zip = { version = "0.5", default-features = false, features = ["deflate"] }
