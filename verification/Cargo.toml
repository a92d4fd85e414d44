[package]
name = "noord"
version = "0.1.0"
edition = "2021"
publish = false

[dependencies]
getopts = "0.2"
glium = "0.25"
html5ever = "0.24"
