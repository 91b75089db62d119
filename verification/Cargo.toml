[package]
name = "serde_gff"
version = "0.3.0"
edition = "2021"
publish = false

[dependencies]
byteorder = "1"
encoding = "0.2"
indexmap = "1"
serde = "1"
