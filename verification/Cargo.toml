[package]
name = "render"
version = "0.1.0"
edition = "2021"
publish = false

[dependencies]
closefds = "0.1"
cocoa = "0.19"
core-graphics = "0.17"
metal = "0.17"
objc = "0.2"
