[package]
name = "xml_compiler"
version = "0.1.0"
edition = "2021"
publish = false

[dependencies]
anyhow = "*"
chrono = "*"
once_cell = "*"
rayon = "*"
walkdir = "*"
