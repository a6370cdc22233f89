[package]
name = "pixi_pty"
version = "0.1.0"
edition = "2021"
publish = false

[dependencies]
humantime = "*"
strip-ansi-escapes = "*"
portable-pty = "*"
libc = "*"
which = "*"
