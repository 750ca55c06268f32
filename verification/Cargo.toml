[package]
name = "zombie_plant"
version = "0.1.0"
edition = "2021"
publish = false

[dependencies]
rand = "*"
