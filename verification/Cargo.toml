[package]
name = "usage_tracker"
version = "0.1.0"
edition = "2021"
publish = false

[dependencies]
bitflags = "=1.3.2"
fxhash = "=0.2.1"
gfx-hal = "0.3"
