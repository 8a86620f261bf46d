[package]
name = "png_parser"
version = "0.1.0"
edition = "2021"
publish = false

[dependencies]
crc32fast = "1"
flate2 = "1"
dirs = "*"
minifb = "*"
lcms2 = "*"
