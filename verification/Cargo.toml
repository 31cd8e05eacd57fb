[package]
name = "complextro"
version = "0.1.0"
edition = "2021"
publish = false

[dependencies]
nom = "7"
egui = "0.21"
egui-miniquad = "0.14"
miniquad = "0.3"
