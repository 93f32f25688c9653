[package]
name = "epicyclogon"
version = "0.1.0"
edition = "2021"
publish = false

[dependencies]
nannou = "*"
nannou_egui = "*"
geo = "*"
itertools = "*"
delaunator = "*"
petgraph = "*"
