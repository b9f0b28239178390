[package]
name = "smartcalc"
version = "1.0.7"
edition = "2021"
publish = false

[dependencies]
regex = "1"
chrono = { version = "0.4", default-features = false }
lazy_static = "1.4"
mut_static = "5"
log = "0.4"
