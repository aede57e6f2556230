[package]
name = "fs_pro"
version = "0.1.0"
edition = "2021"
publish = false

[dependencies]
fs_extra = "*"
rand = "*"
serde_json = "*"
