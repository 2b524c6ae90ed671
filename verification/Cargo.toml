[package]
name = "proximity_alloc"
version = "0.1.0"
edition = "2021"
publish = false

[dependencies]
mmap-fixed = "0.1"
region = "2"
slice-pool = "0.4"
