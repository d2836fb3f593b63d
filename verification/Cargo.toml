[package]
name = "svg_nd"
version = "0.1.0"
edition = "2021"
publish = false

[dependencies]
bezier-nd = "*"
geo-nd = "*"
