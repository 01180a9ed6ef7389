[package]
name = "text_layout"
version = "0.1.0"
edition = "2021"
publish = false

[dependencies]
cty = "0.2"
heapless = "0.8"
num-traits = { version = "0.2", default-features = false }
