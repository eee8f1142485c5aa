[package]
name = "filevec"
version = "0.1.0"
edition = "2021"

[dependencies]
memmap2 = "0.9"
