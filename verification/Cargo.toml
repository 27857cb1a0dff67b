[package]
name = "padtype"
version = "0.1.0"
edition = "2021"
publish = false

[dependencies]
x11rb = { version = "=0.14.0", features = ["xtest"] }
gilrs = "=0.11.2"
crossbeam = "=0.8.5"
packed_bools = "=0.1.0"
