[package]
name = "symb_anafis"
version = "0.1.0"
edition = "2021"
publish = false

[dependencies]
rustc-hash = "2"
slotmap = "1"
rayon = "1"
wide = "*"
