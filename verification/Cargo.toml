[package]
name = "rustamath"
version = "0.1.0"
edition = "2021"
publish = false

[dependencies]
rand = "*"
num-traits = "*"
num-complex = "*"
assert_float_eq = "*"
rustamath_mks = "*"
