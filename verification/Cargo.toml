[package]
name = "faust_jit"
version = "0.1.0"
edition = "2021"
publish = false

[dependencies]
chksum-sha1 = "*"
rand = "0.8"
egui = "0.27"
