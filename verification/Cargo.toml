[package]
name = "helib_rs"
version = "0.1.0"
edition = "2021"
publish = false

[dependencies]
ark-bn254 = { version = "0.4.0", default-features = false, features = ["scalar_field"] }
ark-ff = { version = "0.4.2", default-features = false }
ark-poly = { version = "0.4.2", default-features = false }
color-eyre = { version = "0.6", default-features = false }
rand = "0.8.5"
