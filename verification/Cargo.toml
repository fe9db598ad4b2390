[package]
name = "kuromoji_analysis"
version = "0.1.0"
edition = "2021"
publish = false

[dependencies]
lindera = { version = "=1.5.1", features = ["embedded-ipadic"] }
hashbrown = "=0.15.5"
