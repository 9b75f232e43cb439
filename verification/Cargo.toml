[package]
name = "chipster8"
version = "0.1.0"
edition = "2021"
publish = false

[dependencies]
rand = "0.7"
glium = "0.25"
imgui = "0.2"
imgui-glium-renderer = "0.2"
