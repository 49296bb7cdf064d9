[package]
name = "devtools"
version = "0.1.0"
edition = "2021"
publish = false

[dependencies]
byteorder = "=1.5.0"
clap = "=4.6.7"
clipboard-win = "*"
git2 = "*"
nalgebra = "=0.35.0"
rand = "=0.8.8"
ring = "*"
serde_json = "=1.0.154"
uuid = "=1.29.0"
xml-rs = "=0.8.29"
