[package]
name = "kala"
version = "0.1.0"
edition = "2021"
publish = false

[dependencies]
hashbrown = "*"
fxhash = "0.2"
