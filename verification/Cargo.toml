[package]
name = "ajedrez"
version = "0.1.0"
edition = "2021"
publish = false

[dependencies]
cairo-rs = "0.4"
gdk = "0.8"
gtk = "0.4"
lazy_static = "1"
mut_static = "*"
rsvg = "0.4"

[dev-dependencies]
regex = "1"
