[package]
name = "mussel"
version = "0.1.0"
edition = "2021"
publish = false

[dependencies]
rand = "=0.8.8"
argh = "=0.1.19"
codespan-reporting = "=0.13.1"
rustc_apfloat = "*"
