[package]
name = "xous_hosted"
version = "0.1.0"
edition = "2021"
publish = false

[dependencies]
hex = "0.4"
lazy_static = "1"
log = "0.4"
rkyv = "0.4"
