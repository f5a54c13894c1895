[package]
name = "bmp_view"
version = "0.1.0"
edition = "2021"
publish = false

[dependencies]
colored = "=3.1.1"
regex = "=1.13.1"
unicode-segmentation = "=1.13.3"
